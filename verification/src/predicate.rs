//! The SQL filter a history query becomes: which tables to read, the
//! `WHERE` predicate, and its parameters, with every user value bound as a
//! parameter and search terms quoted so they stay literal.

use crate::formats::string_views;
use crate::text::{chars_of, string_from_chars};
use crate::types::{CollectionScope, HistoryQuery};
use vstd::prelude::*;
use vstd::string::*;

verus! {

/// A bound SQL parameter.
#[derive(Debug)]
pub enum SqlValue {
    Text(String),
    Integer(i64),
}

/// A bound SQL parameter as a plain value.
pub enum SqlParam {
    Text(Seq<char>),
    Integer(i64),
}

pub open spec fn param_view(v: SqlValue) -> SqlParam {
    match v {
        SqlValue::Text(s) => SqlParam::Text(s@),
        SqlValue::Integer(n) => SqlParam::Integer(n),
    }
}

pub open spec fn params_view(v: Seq<SqlValue>) -> Seq<SqlParam> {
    v.map_values(|p: SqlValue| param_view(p))
}

/// `count` question marks separated by `", "`.
pub open spec fn placeholders(count: nat) -> Seq<char>
    decreases count,
{
    if count == 0 {
        seq![]
    } else if count == 1 {
        "?"@
    } else {
        placeholders((count - 1) as nat) + ", ?"@
    }
}

/// Parts joined with a separator.
pub open spec fn join_with(parts: Seq<Seq<char>>, sep: Seq<char>) -> Seq<char>
    decreases parts.len(),
{
    if parts.len() == 0 {
        seq![]
    } else if parts.len() == 1 {
        parts[0]
    } else {
        join_with(parts.drop_last(), sep) + sep + parts.last()
    }
}

fn join_texts(parts: &Vec<String>, sep: &str) -> (out: String)
    ensures
        out@ == join_with(string_views(parts@), sep@),
{
    let mut out = String::new();
    let mut i: usize = 0;
    while i < parts.len()
        invariant
            i <= parts@.len(),
            out@ == join_with(string_views(parts@).take(i as int), sep@),
        decreases parts@.len() - i,
    {
        assert(string_views(parts@).take(i + 1).drop_last() =~= string_views(parts@).take(i as int));
        if i > 0 {
            out.append(sep);
        }
        out.append(parts[i].as_str());
        proof {
            if i == 0 {
                assert(out@ =~= join_with(string_views(parts@).take(1), sep@));
            }
        }
        i = i + 1;
    }
    assert(string_views(parts@).take(i as int) =~= string_views(parts@));
    out
}

/// `?` repeated `count` times, separated by commas.
pub fn sql_placeholders(count: usize) -> (out: String)
    ensures
        out@ == placeholders(count as nat),
{
    let mut out = String::new();
    let mut i: usize = 0;
    proof {
        reveal_strlit("?");
        reveal_strlit(", ?");
    }
    while i < count
        invariant
            i <= count,
            out@ == placeholders(i as nat),
        decreases count - i,
    {
        if i == 0 {
            out.append("?");
        } else {
            out.append(", ?");
        }
        i = i + 1;
    }
    out
}

/// Each `"` doubled.
pub open spec fn double_quotes(s: Seq<char>) -> Seq<char>
    decreases s.len(),
{
    if s.len() == 0 {
        seq![]
    } else {
        double_quotes(s.drop_last()) + if s.last() == '"' {
            seq!['"', '"']
        } else {
            seq![s.last()]
        }
    }
}

/// The FTS5 string literal for a term: in double quotes, inner quotes doubled.
pub open spec fn fts5_quoted(s: Seq<char>) -> Seq<char> {
    seq!['"'] + double_quotes(s) + seq!['"']
}

/// Reads doubled quotes back; `None` when a quote stands alone.
pub open spec fn undouble_quotes(t: Seq<char>) -> Option<Seq<char>>
    decreases t.len(),
{
    if t.len() == 0 {
        Some(seq![])
    } else if t.last() == '"' {
        if t.len() >= 2 && t[t.len() - 2] == '"' {
            match undouble_quotes(t.take(t.len() - 2)) {
                Some(r) => Some(r.push('"')),
                None => None,
            }
        } else {
            None
        }
    } else {
        match undouble_quotes(t.drop_last()) {
            Some(r) => Some(r.push(t.last())),
            None => None,
        }
    }
}

/// An FTS5 literal reads back as exactly its term: inside the outer quotes
/// every quote is doubled, so no term can close the literal early.
pub proof fn lemma_fts5_literal_reads_back(s: Seq<char>)
    ensures
        undouble_quotes(double_quotes(s)) == Some(s),
        fts5_quoted(s).subrange(1, fts5_quoted(s).len() - 1) == double_quotes(s),
    decreases s.len(),
{
    if s.len() > 0 {
        let p = s.drop_last();
        lemma_fts5_literal_reads_back(p);
        let t = double_quotes(s);
        if s.last() == '"' {
            assert(t.take(t.len() - 2) =~= double_quotes(p));
        } else {
            assert(t.drop_last() =~= double_quotes(p));
        }
        assert(s =~= p.push(s.last()));
    }
    assert(fts5_quoted(s).subrange(1, fts5_quoted(s).len() - 1) =~= double_quotes(s));
}

/// Quotes a search term as an FTS5 string literal.
pub fn fts5_literal(value: &str) -> (out: String)
    ensures
        out@ == fts5_quoted(value@),
{
    let chars = chars_of(value);
    let mut body: Vec<char> = Vec::new();
    let mut i: usize = 0;
    while i < chars.len()
        invariant
            i <= chars@.len(),
            chars@ == value@,
            body@ == double_quotes(chars@.take(i as int)),
        decreases chars@.len() - i,
    {
        assert(chars@.take(i + 1).drop_last() =~= chars@.take(i as int));
        let c = chars[i];
        let ghost before = body@;
        if c == '"' {
            body.push('"');
            body.push('"');
        } else {
            body.push(c);
        }
        assert(body@ =~= double_quotes(chars@.take(i + 1)));
        i = i + 1;
    }
    assert(chars@.take(i as int) =~= chars@);
    let mut quoted: Vec<char> = Vec::new();
    quoted.push('"');
    let mut k: usize = 0;
    while k < body.len()
        invariant
            k <= body@.len(),
            quoted@ == seq!['"'] + body@.take(k as int),
        decreases body@.len() - k,
    {
        quoted.push(body[k]);
        assert(body@.take(k + 1) =~= body@.take(k as int).push(body@[k as int]));
        k = k + 1;
    }
    quoted.push('"');
    assert(body@.take(k as int) =~= body@);
    assert(quoted@ =~= fts5_quoted(value@));
    string_from_chars(&quoted)
}

/// A LIKE metacharacter (or the escape character itself).
pub open spec fn like_special(c: char) -> bool {
    c == '%' || c == '_' || c == '\\'
}

/// Each LIKE metacharacter preceded by a backslash.
pub open spec fn like_escape(s: Seq<char>) -> Seq<char>
    decreases s.len(),
{
    if s.len() == 0 {
        seq![]
    } else {
        like_escape(s.drop_last()) + if like_special(s.last()) {
            seq!['\\', s.last()]
        } else {
            seq![s.last()]
        }
    }
}

/// The LIKE pattern matching any text that contains `s` literally.
pub open spec fn like_contains_pattern(s: Seq<char>) -> Seq<char> {
    seq!['%'] + like_escape(s) + seq!['%']
}

/// Reads an escaped LIKE body back; `None` when a metacharacter is unescaped.
pub open spec fn like_unescape(t: Seq<char>) -> Option<Seq<char>>
    decreases t.len(),
{
    if t.len() == 0 {
        Some(seq![])
    } else if like_special(t.last()) {
        if t.len() >= 2 && t[t.len() - 2] == '\\' {
            match like_unescape(t.take(t.len() - 2)) {
                Some(r) => Some(r.push(t.last())),
                None => None,
            }
        } else {
            None
        }
    } else {
        match like_unescape(t.drop_last()) {
            Some(r) => Some(r.push(t.last())),
            None => None,
        }
    }
}

/// Between its outer `%` wildcards an escaped pattern reads back as exactly
/// the term: every `%`, `_` and `\` of the term is escaped, so it matches literally.
pub proof fn lemma_like_pattern_is_literal(s: Seq<char>)
    ensures
        like_unescape(like_escape(s)) == Some(s),
        like_contains_pattern(s).subrange(1, like_contains_pattern(s).len() - 1) == like_escape(s),
    decreases s.len(),
{
    if s.len() > 0 {
        let p = s.drop_last();
        lemma_like_pattern_is_literal(p);
        let t = like_escape(s);
        if like_special(s.last()) {
            assert(t.take(t.len() - 2) =~= like_escape(p));
        } else {
            assert(t.drop_last() =~= like_escape(p));
        }
        assert(s =~= p.push(s.last()));
    }
    assert(like_contains_pattern(s).subrange(1, like_contains_pattern(s).len() - 1)
        =~= like_escape(s));
}

/// The LIKE pattern for a short term: `%`, the term with `%`, `_` and `\` escaped, `%`.
pub fn escaped_like_pattern(value: &str) -> (out: String)
    ensures
        out@ == like_contains_pattern(value@),
{
    let chars = chars_of(value);
    let mut escaped: Vec<char> = Vec::new();
    escaped.push('%');
    let mut i: usize = 0;
    while i < chars.len()
        invariant
            i <= chars@.len(),
            chars@ == value@,
            escaped@ == seq!['%'] + like_escape(chars@.take(i as int)),
        decreases chars@.len() - i,
    {
        assert(chars@.take(i + 1).drop_last() =~= chars@.take(i as int));
        let c = chars[i];
        if c == '%' || c == '_' || c == '\\' {
            escaped.push('\\');
        }
        escaped.push(c);
        assert(escaped@ =~= seq!['%'] + like_escape(chars@.take(i + 1)));
        i = i + 1;
    }
    escaped.push('%');
    assert(chars@.take(i as int) =~= chars@);
    assert(escaped@ =~= like_contains_pattern(value@));
    string_from_chars(&escaped)
}


/// The pieces of `s` between single spaces, empty pieces included.
pub open spec fn split_on_space(s: Seq<char>) -> Seq<Seq<char>>
    decreases s.len(),
{
    if s.len() == 0 {
        seq![seq![]]
    } else {
        let p = split_on_space(s.drop_last());
        if s.last() == ' ' {
            p.push(seq![])
        } else {
            p.update(p.len() - 1, p.last().push(s.last()))
        }
    }
}

proof fn lemma_split_on_space_nonempty(s: Seq<char>)
    ensures
        split_on_space(s).len() >= 1,
    decreases s.len(),
{
    if s.len() > 0 {
        lemma_split_on_space_nonempty(s.drop_last());
    }
}

/// The search terms of a normalised query text: none for empty text.
pub open spec fn query_text_terms(text: Seq<char>) -> Seq<Seq<char>> {
    if text.len() == 0 {
        seq![]
    } else {
        split_on_space(text)
    }
}

/// A term long enough for the trigram full-text index.
pub open spec fn is_fts_term(term: Seq<char>) -> bool {
    term.len() >= 3
}

/// The tables joined for a query: the full-text index when some term is long
/// enough, the plain projection for short terms only, the records alone otherwise.
pub open spec fn predicate_from(terms: Seq<Seq<char>>) -> Seq<char> {
    if exists|k: int| 0 <= k < terms.len() && is_fts_term(#[trigger] terms[k]) {
        "clip_search_fts\n         JOIN clip_search ON clip_search.rowid = clip_search_fts.rowid\n         JOIN clips ON clips.id = clip_search.clip_id"@
    } else if terms.len() == 0 {
        "clips"@
    } else {
        "clip_search JOIN clips ON clips.id = clip_search.clip_id"@
    }
}

/// A filter on a column by a list of values: `column IN (?, ...)`, nothing for an empty list.
pub open spec fn in_filter(column: Seq<char>, values: Seq<String>) -> (Seq<Seq<char>>, Seq<SqlParam>) {
    if values.len() == 0 {
        (seq![], seq![])
    } else {
        (
            seq![column + " IN ("@ + placeholders(values.len()) + ")"@],
            values.map_values(|v: String| SqlParam::Text(v@)),
        )
    }
}

/// The filter for a collection scope.
pub open spec fn scope_filter(scope: CollectionScope) -> (Seq<Seq<char>>, Seq<SqlParam>) {
    match scope {
        CollectionScope::Any {  } => (seq![], seq![]),
        CollectionScope::Unfiled {  } => (seq!["clips.collection_id IS NULL"@], seq![]),
        CollectionScope::Collection { id } => (
            seq!["clips.collection_id = ?"@],
            seq![SqlParam::Text(id@)],
        ),
    }
}

/// The filter for an optional flag column.
pub open spec fn flag_filter(column: Seq<char>, flag: Option<bool>) -> (Seq<Seq<char>>, Seq<SqlParam>) {
    match flag {
        None => (seq![], seq![]),
        Some(b) => (
            seq![column + " = ?"@],
            seq![SqlParam::Integer(if b { 1i64 } else { 0i64 })],
        ),
    }
}

/// The filters for short terms (a literal `LIKE` each), and the quoted long terms, in order.
pub open spec fn term_filters(terms: Seq<Seq<char>>) -> (Seq<Seq<char>>, Seq<SqlParam>, Seq<Seq<char>>)
    decreases terms.len(),
{
    if terms.len() == 0 {
        (seq![], seq![], seq![])
    } else {
        let (preds, params, fts) = term_filters(terms.drop_last());
        let t = terms.last();
        if is_fts_term(t) {
            (preds, params, fts.push(fts5_quoted(t)))
        } else {
            (
                preds.push("clip_search.normalized_text LIKE ? ESCAPE '\\'"@),
                params.push(SqlParam::Text(like_contains_pattern(t))),
                fts,
            )
        }
    }
}

/// All predicates and parameters of a query, in order: kinds, source
/// applications, collection, pinned, permanent, short terms, then one
/// `MATCH` of the long terms joined by `AND`.
pub open spec fn query_filters(query: HistoryQuery) -> (Seq<Seq<char>>, Seq<SqlParam>) {
    let kinds = in_filter("clips.kind"@, query.kinds@);
    let apps = in_filter("clips.source_app"@, query.source_apps@);
    let scope = scope_filter(query.collection);
    let pinned = flag_filter("clips.pinned"@, query.pinned);
    let permanent = flag_filter("clips.permanent"@, query.permanent);
    let (term_preds, term_params, fts) = term_filters(query_text_terms(query.text@));
    let (fts_preds, fts_params): (Seq<Seq<char>>, Seq<SqlParam>) = if fts.len() == 0 {
        (seq![], seq![])
    } else {
        (seq!["clip_search_fts MATCH ?"@], seq![SqlParam::Text(join_with(fts, " AND "@))])
    };
    (
        kinds.0 + apps.0 + scope.0 + pinned.0 + permanent.0 + term_preds + fts_preds,
        kinds.1 + apps.1 + scope.1 + pinned.1 + permanent.1 + term_params + fts_params,
    )
}

/// The `WHERE` text: the predicates joined by `AND`, or `1 = 1` when there are none.
pub open spec fn where_text(preds: Seq<Seq<char>>) -> Seq<char> {
    if preds.len() == 0 {
        "1 = 1"@
    } else {
        join_with(preds, " AND "@)
    }
}

fn split_text_on_space(text: &str) -> (out: Vec<String>)
    ensures
        string_views(out@) == query_text_terms(text@),
{
    let chars = chars_of(text);
    if chars.len() == 0 {
        let out: Vec<String> = Vec::new();
        assert(string_views(out@) =~= query_text_terms(text@));
        return out;
    }
    let mut pieces: Vec<String> = Vec::new();
    let mut current: Vec<char> = Vec::new();
    let mut i: usize = 0;
    assert(split_on_space(chars@.take(0)) =~= seq![seq![]]);
    while i < chars.len()
        invariant
            i <= chars@.len(),
            chars@ == text@,
            string_views(pieces@).push(current@) == split_on_space(chars@.take(i as int)),
        decreases chars@.len() - i,
    {
        assert(chars@.take(i + 1).drop_last() =~= chars@.take(i as int));
        let c = chars[i];
        let ghost before = string_views(pieces@).push(current@);
        if c == ' ' {
            pieces.push(string_from_chars(&current));
            current = Vec::new();
            assert(string_views(pieces@).push(current@) =~= before.push(seq![]));
        } else {
            current.push(c);
            assert(string_views(pieces@).push(current@) =~= before.update(
                before.len() - 1,
                before.last().push(c),
            ));
        }
        i = i + 1;
    }
    assert(chars@.take(i as int) =~= chars@);
    let ghost before = string_views(pieces@);
    pieces.push(string_from_chars(&current));
    assert(string_views(pieces@) =~= before.push(current@));
    pieces
}

fn push_in_filter(preds: &mut Vec<String>, params: &mut Vec<SqlValue>, column: &str, values: &Vec<String>)
    ensures
        string_views(final(preds)@) == string_views(old(preds)@) + in_filter(column@, values@).0,
        params_view(final(params)@) == params_view(old(params)@) + in_filter(column@, values@).1,
{
    if values.len() == 0 {
        assert(string_views(preds@) =~= string_views(preds@) + Seq::<Seq<char>>::empty());
        assert(params_view(params@) =~= params_view(params@) + Seq::<SqlParam>::empty());
        return;
    }
    let ghost p0 = string_views(preds@);
    let ghost q0 = params_view(params@);
    let mut text = String::from_str(column);
    text.append(" IN (");
    let marks = sql_placeholders(values.len());
    text.append(marks.as_str());
    text.append(")");
    preds.push(text);
    assert(string_views(preds@) =~= p0 + in_filter(column@, values@).0);
    let mut i: usize = 0;
    while i < values.len()
        invariant
            i <= values@.len(),
            params_view(params@) == q0 + values@.take(i as int).map_values(|v: String| SqlParam::Text(v@)),
        decreases values@.len() - i,
    {
        let ghost prev = params@;
        let v = values[i].clone();
        params.push(SqlValue::Text(v));
        assert(params@ =~= prev.push(SqlValue::Text(v)));
        assert(params_view(params@) =~= params_view(prev).push(SqlParam::Text(values@[i as int]@)));
        assert(values@.take(i + 1).map_values(|v: String| SqlParam::Text(v@)) =~= values@.take(
            i as int,
        ).map_values(|v: String| SqlParam::Text(v@)).push(SqlParam::Text(values@[i as int]@)));
        assert(params_view(params@) =~= q0 + values@.take(i + 1).map_values(
            |v: String| SqlParam::Text(v@),
        ));
        i = i + 1;
    }
    assert(values@.take(i as int) =~= values@);
}

fn push_flag_filter(preds: &mut Vec<String>, params: &mut Vec<SqlValue>, column: &str, flag: Option<bool>)
    ensures
        string_views(final(preds)@) == string_views(old(preds)@) + flag_filter(column@, flag).0,
        params_view(final(params)@) == params_view(old(params)@) + flag_filter(column@, flag).1,
{
    let ghost p0 = string_views(preds@);
    let ghost q0 = params_view(params@);
    match flag {
        None => {
            assert(string_views(preds@) =~= p0 + Seq::<Seq<char>>::empty());
            assert(params_view(params@) =~= q0 + Seq::<SqlParam>::empty());
        },
        Some(b) => {
            let mut text = String::from_str(column);
            text.append(" = ?");
            preds.push(text);
            params.push(SqlValue::Integer(if b { 1 } else { 0 }));
            assert(string_views(preds@) =~= p0 + flag_filter(column@, flag).0);
            assert(params_view(params@) =~= q0 + flag_filter(column@, flag).1);
        },
    }
}

fn push_scope_filter(preds: &mut Vec<String>, params: &mut Vec<SqlValue>, scope: &CollectionScope)
    ensures
        string_views(final(preds)@) == string_views(old(preds)@) + scope_filter(*scope).0,
        params_view(final(params)@) == params_view(old(params)@) + scope_filter(*scope).1,
{
    let ghost p0 = string_views(preds@);
    let ghost q0 = params_view(params@);
    match scope {
        CollectionScope::Any {  } => {
            assert(string_views(preds@) =~= p0 + Seq::<Seq<char>>::empty());
            assert(params_view(params@) =~= q0 + Seq::<SqlParam>::empty());
        },
        CollectionScope::Unfiled {  } => {
            preds.push(String::from_str("clips.collection_id IS NULL"));
            assert(string_views(preds@) =~= p0 + scope_filter(*scope).0);
            assert(params_view(params@) =~= q0 + Seq::<SqlParam>::empty());
        },
        CollectionScope::Collection { id } => {
            preds.push(String::from_str("clips.collection_id = ?"));
            params.push(SqlValue::Text(id.clone()));
            assert(string_views(preds@) =~= p0 + scope_filter(*scope).0);
            assert(params_view(params@) =~= q0 + scope_filter(*scope).1);
        },
    }
}

/// The tables, the `WHERE` predicate and the parameters for a normalised query.
#[verifier::rlimit(40)]
pub fn history_query_predicate(query: &HistoryQuery) -> (out: (String, String, Vec<SqlValue>))
    ensures
        out.0@ == predicate_from(query_text_terms(query.text@)),
        out.1@ == where_text(query_filters(*query).0),
        params_view(out.2@) == query_filters(*query).1,
{
    let terms = split_text_on_space(query.text.as_str());
    let ghost tv = string_views(terms@);
    let mut has_fts = false;
    let mut i: usize = 0;
    while i < terms.len()
        invariant
            i <= terms@.len(),
            tv == string_views(terms@),
            has_fts <==> exists|k: int| 0 <= k < i && is_fts_term(#[trigger] tv[k]),
        decreases terms@.len() - i,
    {
        assert(tv[i as int] == terms@[i as int]@);
        if terms[i].as_str().unicode_len() >= 3 {
            has_fts = true;
        }
        i = i + 1;
    }
    let from = if has_fts {
        String::from_str(
            "clip_search_fts\n         JOIN clip_search ON clip_search.rowid = clip_search_fts.rowid\n         JOIN clips ON clips.id = clip_search.clip_id",
        )
    } else if terms.len() == 0 {
        String::from_str("clips")
    } else {
        String::from_str("clip_search JOIN clips ON clips.id = clip_search.clip_id")
    };
    let mut preds: Vec<String> = Vec::new();
    let mut params: Vec<SqlValue> = Vec::new();
    assert(string_views(preds@) =~= Seq::<Seq<char>>::empty());
    assert(params_view(params@) =~= Seq::<SqlParam>::empty());
    proof {
        reveal_strlit("clips.kind");
        reveal_strlit("clips.source_app");
        reveal_strlit("clips.pinned");
        reveal_strlit("clips.permanent");
    }
    push_in_filter(&mut preds, &mut params, "clips.kind", &query.kinds);
    push_in_filter(&mut preds, &mut params, "clips.source_app", &query.source_apps);
    push_scope_filter(&mut preds, &mut params, &query.collection);
    push_flag_filter(&mut preds, &mut params, "clips.pinned", query.pinned);
    push_flag_filter(&mut preds, &mut params, "clips.permanent", query.permanent);
    let ghost p0 = string_views(preds@);
    let ghost q0 = params_view(params@);
    let ghost kinds = in_filter("clips.kind"@, query.kinds@);
    let ghost apps = in_filter("clips.source_app"@, query.source_apps@);
    let ghost scope = scope_filter(query.collection);
    let ghost pinned = flag_filter("clips.pinned"@, query.pinned);
    let ghost permanent = flag_filter("clips.permanent"@, query.permanent);
    assert(p0 =~= kinds.0 + apps.0 + scope.0 + pinned.0 + permanent.0);
    assert(q0 =~= kinds.1 + apps.1 + scope.1 + pinned.1 + permanent.1);
    let mut fts_terms: Vec<String> = Vec::new();
    let mut j: usize = 0;
    assert(tv.take(0) =~= Seq::<Seq<char>>::empty());
    while j < terms.len()
        invariant
            j <= terms@.len(),
            tv == string_views(terms@),
            string_views(preds@) == p0 + term_filters(tv.take(j as int)).0,
            params_view(params@) == q0 + term_filters(tv.take(j as int)).1,
            string_views(fts_terms@) == term_filters(tv.take(j as int)).2,
        decreases terms@.len() - j,
    {
        assert(tv.take(j + 1).drop_last() =~= tv.take(j as int));
        assert(tv.take(j + 1).last() == terms@[j as int]@);
        let term = terms[j].as_str();
        let ghost pb = string_views(preds@);
        let ghost qb = params_view(params@);
        let ghost fb = string_views(fts_terms@);
        if term.unicode_len() >= 3 {
            fts_terms.push(fts5_literal(term));
            assert(string_views(fts_terms@) =~= fb.push(fts5_quoted(term@)));
        } else {
            preds.push(String::from_str("clip_search.normalized_text LIKE ? ESCAPE '\\'"));
            params.push(SqlValue::Text(escaped_like_pattern(term)));
            assert(string_views(preds@) =~= pb.push("clip_search.normalized_text LIKE ? ESCAPE '\\'"@));
            assert(params_view(params@) =~= qb.push(SqlParam::Text(like_contains_pattern(term@))));
        }
        j = j + 1;
    }
    assert(tv.take(j as int) =~= tv);
    let ghost p1 = string_views(preds@);
    let ghost q1 = params_view(params@);
    if fts_terms.len() > 0 {
        preds.push(String::from_str("clip_search_fts MATCH ?"));
        params.push(SqlValue::Text(join_texts(&fts_terms, " AND ")));
        assert(string_views(preds@) =~= p1.push("clip_search_fts MATCH ?"@));
        assert(params_view(params@) =~= q1.push(SqlParam::Text(join_with(string_views(fts_terms@), " AND "@))));
    } else {
        assert(string_views(preds@) =~= p1 + Seq::<Seq<char>>::empty());
        assert(params_view(params@) =~= q1 + Seq::<SqlParam>::empty());
    }
    let ghost spec = query_filters(*query);
    assert(string_views(preds@) =~= spec.0);
    assert(params_view(params@) =~= spec.1);
    let predicate = if preds.len() == 0 {
        String::from_str("1 = 1")
    } else {
        join_texts(&preds, " AND ")
    };
    (from, predicate, params)
}

/// The condition that keeps rows strictly after a cursor position, newest first.
pub open spec fn after_cursor_clause() -> Seq<char> {
    " AND (clips.copied_at < ? OR (clips.copied_at = ? AND clips.id < ?))"@
}

/// The tables, `WHERE` predicate and parameters for one page of a normalised
/// query: the query's own predicate, then, when the query resumes at the
/// position `(copied_at, id)`, only the rows after it.
pub fn history_page_predicate(query: &HistoryQuery, cursor: Option<(String, String)>) -> (out: (
    String,
    String,
    Vec<SqlValue>,
))
    ensures
        out.0@ == predicate_from(query_text_terms(query.text@)),
        match cursor {
            None => out.1@ == where_text(query_filters(*query).0) && params_view(out.2@)
                == query_filters(*query).1,
            Some((copied_at, id)) => out.1@ == where_text(query_filters(*query).0)
                + after_cursor_clause() && params_view(out.2@) == query_filters(*query).1 + seq![
                SqlParam::Text(copied_at@),
                SqlParam::Text(copied_at@),
                SqlParam::Text(id@),
            ],
        },
{
    let (from, mut predicate, mut parameters) = history_query_predicate(query);
    let ghost base = params_view(parameters@);
    match cursor {
        None => {},
        Some((copied_at, id)) => {
            predicate.append(" AND (clips.copied_at < ? OR (clips.copied_at = ? AND clips.id < ?))");
            let again = copied_at.clone();
            parameters.push(SqlValue::Text(again));
            parameters.push(SqlValue::Text(copied_at));
            parameters.push(SqlValue::Text(id));
            assert(params_view(parameters@) =~= base + seq![
                SqlParam::Text(copied_at@),
                SqlParam::Text(copied_at@),
                SqlParam::Text(id@),
            ]);
        },
    }
    (from, predicate, parameters)
}

/// The condition that keeps rows at or before a batch's upper bound, newest first.
pub open spec fn upper_bound_clause() -> Seq<char> {
    " AND (clips.copied_at < ? OR (clips.copied_at = ? AND clips.id COLLATE BINARY <= ?))"@
}

/// The condition that leaves out `count` listed ids (nothing for none).
pub open spec fn excluded_clause(count: nat) -> Seq<char> {
    if count == 0 {
        seq![]
    } else {
        " AND clips.id NOT IN ("@ + placeholders(count) + ")"@
    }
}

/// The ids as text parameters, in order.
pub open spec fn text_params(ids: Seq<String>) -> Seq<SqlParam> {
    ids.map_values(|id: String| SqlParam::Text(id@))
}

/// The tables, `WHERE` predicate and parameters that select a batch query's
/// rows: the query's own predicate, only rows at or before the upper bound
/// `(copied_at, id)`, and none of the excluded ids.
pub fn batch_query_predicate(
    query: &HistoryQuery,
    upper_copied_at: &str,
    upper_id: &str,
    excluded_ids: &Vec<String>,
) -> (out: (String, String, Vec<SqlValue>))
    ensures
        out.0@ == predicate_from(query_text_terms(query.text@)),
        out.1@ == where_text(query_filters(*query).0) + upper_bound_clause() + excluded_clause(
            excluded_ids@.len(),
        ),
        params_view(out.2@) == query_filters(*query).1 + seq![
            SqlParam::Text(upper_copied_at@),
            SqlParam::Text(upper_copied_at@),
            SqlParam::Text(upper_id@),
        ] + text_params(excluded_ids@),
{
    let (from, mut predicate, mut parameters) = history_query_predicate(query);
    let ghost base = params_view(parameters@);
    let ghost base_text = predicate@;
    predicate.append(" AND (clips.copied_at < ? OR (clips.copied_at = ? AND clips.id COLLATE BINARY <= ?))");
    parameters.push(SqlValue::Text(String::from_str(upper_copied_at)));
    parameters.push(SqlValue::Text(String::from_str(upper_copied_at)));
    parameters.push(SqlValue::Text(String::from_str(upper_id)));
    let ghost bounded = base + seq![
        SqlParam::Text(upper_copied_at@),
        SqlParam::Text(upper_copied_at@),
        SqlParam::Text(upper_id@),
    ];
    assert(params_view(parameters@) =~= bounded);
    if excluded_ids.len() > 0 {
        predicate.append(" AND clips.id NOT IN (");
        let marks = sql_placeholders(excluded_ids.len());
        predicate.append(marks.as_str());
        predicate.append(")");
        assert(predicate@ =~= base_text + upper_bound_clause() + excluded_clause(excluded_ids@.len()));
    } else {
        assert(predicate@ =~= base_text + upper_bound_clause() + excluded_clause(excluded_ids@.len()));
    }
    let mut i: usize = 0;
    while i < excluded_ids.len()
        invariant
            i <= excluded_ids@.len(),
            params_view(parameters@) == bounded + text_params(excluded_ids@.take(i as int)),
        decreases excluded_ids@.len() - i,
    {
        let ghost before = parameters@;
        let id = excluded_ids[i].clone();
        assert(id@ == excluded_ids@[i as int]@);
        parameters.push(SqlValue::Text(id));
        assert(params_view(parameters@) =~= params_view(before).push(
            SqlParam::Text(excluded_ids@[i as int]@),
        ));
        assert(excluded_ids@.take(i + 1) =~= excluded_ids@.take(i as int).push(excluded_ids@[i as int]));
        assert(text_params(excluded_ids@.take(i + 1)) =~= text_params(excluded_ids@.take(i as int)).push(
            SqlParam::Text(excluded_ids@[i as int]@),
        ));
        assert(params_view(parameters@) =~= bounded + text_params(excluded_ids@.take(i + 1)));
        i = i + 1;
    }
    assert(excluded_ids@.take(i as int) =~= excluded_ids@);
    (from, predicate, parameters)
}

} // verus!
