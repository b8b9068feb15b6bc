//! The normalised search projection of a record and how a query matches it.

use crate::external::{char_lowercase, lowercase_char, nfkc, nfkc_string};
use crate::item::{opt_text_is, opt_view};
use crate::text::{char_is_query_space, chars_of, is_query_space, string_from_chars, text_eq};
use crate::types::{HistoryItem, HistoryMatchSource};
use vstd::prelude::*;

verus! {

/// Final sigma folds to sigma so both spellings match.
pub open spec fn fold_sigma(c: char) -> char {
    if c == '\u{03c2}' {
        '\u{03c3}'
    } else {
        c
    }
}

/// Every character lower-cased (one character may become several), with final sigma folded.
pub open spec fn lower_fold(s: Seq<char>) -> Seq<char>
    decreases s.len(),
{
    if s.len() == 0 {
        seq![]
    } else {
        lower_fold(s.drop_last()) + char_lowercase(s.last()).map_values(|c: char| fold_sigma(c))
    }
}

/// The words of `s` (maximal runs of characters that are not query white
/// space), joined by single spaces; returned with whether a separator is pending.
pub open spec fn collapse_state(s: Seq<char>) -> (Seq<char>, bool)
    decreases s.len(),
{
    if s.len() == 0 {
        (seq![], false)
    } else {
        let (out, pending) = collapse_state(s.drop_last());
        let c = s.last();
        if is_query_space(c) {
            (out, out.len() > 0)
        } else if pending {
            (out.push(' ').push(c), false)
        } else {
            (out.push(c), false)
        }
    }
}

/// The words of `s` joined by single spaces.
pub open spec fn collapse_spaces(s: Seq<char>) -> Seq<char> {
    collapse_state(s).0
}

/// The normalised form used for searching: NFKC, lower case, final sigma
/// folded, and white space collapsed to single spaces between words.
pub open spec fn search_text(value: Seq<char>) -> Seq<char> {
    collapse_spaces(lower_fold(nfkc(value)))
}

fn lower_fold_chars(s: &Vec<char>) -> (out: Vec<char>)
    ensures
        out@ == lower_fold(s@),
{
    let mut out: Vec<char> = Vec::new();
    let mut i: usize = 0;
    while i < s.len()
        invariant
            i <= s@.len(),
            out@ == lower_fold(s@.take(i as int)),
        decreases s@.len() - i,
    {
        let lowered = lowercase_char(s[i]);
        let ghost before = out@;
        let mut j: usize = 0;
        while j < lowered.len()
            invariant
                j <= lowered@.len(),
                out@ == before + lowered@.take(j as int).map_values(|c: char| fold_sigma(c)),
            decreases lowered@.len() - j,
        {
            let c = lowered[j];
            out.push(if c == '\u{03c2}' {
                '\u{03c3}'
            } else {
                c
            });
            assert(lowered@.take(j + 1).map_values(|c: char| fold_sigma(c)) =~= lowered@.take(
                j as int,
            ).map_values(|c: char| fold_sigma(c)).push(fold_sigma(c)));
            j = j + 1;
        }
        assert(lowered@.take(j as int) =~= lowered@);
        assert(s@.take(i + 1).drop_last() =~= s@.take(i as int));
        assert(s@.take(i + 1).last() == s@[i as int]);
        i = i + 1;
    }
    assert(s@.take(i as int) =~= s@);
    out
}

fn collapse_chars(s: &Vec<char>) -> (out: Vec<char>)
    ensures
        out@ == collapse_spaces(s@),
{
    let mut out: Vec<char> = Vec::new();
    let mut pending = false;
    let mut i: usize = 0;
    while i < s.len()
        invariant
            i <= s@.len(),
            (out@, pending) == collapse_state(s@.take(i as int)),
        decreases s@.len() - i,
    {
        assert(s@.take(i + 1).drop_last() =~= s@.take(i as int));
        assert(s@.take(i + 1).last() == s@[i as int]);
        let c = s[i];
        if char_is_query_space(c) {
            pending = out.len() > 0;
        } else {
            if pending {
                out.push(' ');
            }
            out.push(c);
            pending = false;
        }
        i = i + 1;
    }
    assert(s@.take(i as int) =~= s@);
    out
}

/// The normalised search form of a text (see [`search_text`]).
pub fn normalize_search_text(value: &str) -> (out: String)
    ensures
        out@ == search_text(value@),
{
    let normalized = nfkc_string(value);
    let lowered = lower_fold_chars(&chars_of(normalized.as_str()));
    string_from_chars(&collapse_chars(&lowered))
}

/// The normalised form of query text: the same as record text.
pub fn normalize_query_text(value: &str) -> (out: String)
    ensures
        out@ == search_text(value@),
{
    normalize_search_text(value)
}

/// Lines joined by `\n`.
pub open spec fn join_lines(parts: Seq<Seq<char>>) -> Seq<char>
    decreases parts.len(),
{
    if parts.len() == 0 {
        seq![]
    } else if parts.len() == 1 {
        parts[0]
    } else {
        join_lines(parts.drop_last()) + seq!['\n'] + parts.last()
    }
}

/// The file paths and names, flattened in order.
pub open spec fn file_parts(files: Seq<(String, String)>) -> Seq<Seq<char>>
    decreases files.len(),
{
    if files.len() == 0 {
        seq![]
    } else {
        file_parts(files.drop_last()) + seq![files.last().0@, files.last().1@]
    }
}

/// The text that the search projection normalises: title, plain text, source
/// application, search terms, OCR text, then each file's path and name.
pub open spec fn projection_parts(
    title: Seq<char>,
    plain_text: Seq<char>,
    source_app: Seq<char>,
    search_terms: Seq<String>,
    ocr_text: Option<Seq<char>>,
    files: Seq<(String, String)>,
) -> Seq<Seq<char>> {
    seq![title, plain_text, source_app] + search_terms.map_values(|t: String| t@) + match ocr_text {
        Some(text) => seq![text],
        None => seq![],
    } + file_parts(files)
}

struct LineJoiner {
    out: Vec<char>,
    started: bool,
    parts: Ghost<Seq<Seq<char>>>,
}

impl LineJoiner {
    fn new() -> (j: Self)
        ensures
            j.parts@ == Seq::<Seq<char>>::empty(),
            j.out@ == join_lines(j.parts@),
            j.started == (j.parts@.len() > 0),
    {
        LineJoiner { out: Vec::new(), started: false, parts: Ghost(Seq::empty()) }
    }

    fn add(&mut self, part: &str)
        requires
            old(self).out@ == join_lines(old(self).parts@),
            old(self).started == (old(self).parts@.len() > 0),
        ensures
            final(self).parts@ == old(self).parts@.push(part@),
            final(self).out@ == join_lines(final(self).parts@),
            final(self).started,
    {
        let ghost previous = self.parts@;
        if self.started {
            self.out.push('\n');
        }
        self.started = true;
        let chars = chars_of(part);
        let ghost head = self.out@;
        let mut i: usize = 0;
        while i < chars.len()
            invariant
                i <= chars@.len(),
                self.out@ == head + chars@.take(i as int),
                self.started,
            decreases chars@.len() - i,
        {
            self.out.push(chars[i]);
            assert(chars@.take(i + 1) =~= chars@.take(i as int).push(chars@[i as int]));
            i = i + 1;
        }
        assert(chars@.take(i as int) =~= chars@);
        self.parts = Ghost(previous.push(part@));
        assert(self.parts@.drop_last() =~= previous);
        proof {
            if previous.len() == 0 {
                assert(self.out@ =~= join_lines(self.parts@));
            } else {
                assert(self.out@ =~= join_lines(self.parts@));
            }
        }
    }
}

/// The normalised text indexed for a record.
pub fn build_search_projection(
    title: &str,
    plain_text: &str,
    source_app: &str,
    search_terms: &[String],
    ocr_text: Option<&str>,
    files: &[(String, String)],
) -> (out: String)
    ensures
        out@ == search_text(
            join_lines(
                projection_parts(
                    title@,
                    plain_text@,
                    source_app@,
                    search_terms@,
                    match ocr_text {
                        Some(t) => Some(t@),
                        None => None,
                    },
                    files@,
                ),
            ),
        ),
{
    let mut joiner = LineJoiner::new();
    joiner.add(title);
    joiner.add(plain_text);
    joiner.add(source_app);
    let ghost base = joiner.parts@;
    let mut i: usize = 0;
    while i < search_terms.len()
        invariant
            i <= search_terms@.len(),
            joiner.out@ == join_lines(joiner.parts@),
            joiner.started == (joiner.parts@.len() > 0),
            joiner.parts@ == base + search_terms@.take(i as int).map_values(|t: String| t@),
        decreases search_terms@.len() - i,
    {
        joiner.add(search_terms[i].as_str());
        assert(search_terms@.take(i + 1).map_values(|t: String| t@) =~= search_terms@.take(
            i as int,
        ).map_values(|t: String| t@).push(search_terms@[i as int]@));
        i = i + 1;
    }
    assert(search_terms@.take(i as int) =~= search_terms@);
    let ghost with_terms = joiner.parts@;
    if let Some(text) = ocr_text {
        joiner.add(text);
    }
    let ghost with_ocr = joiner.parts@;
    let mut k: usize = 0;
    while k < files.len()
        invariant
            k <= files@.len(),
            joiner.out@ == join_lines(joiner.parts@),
            joiner.started == (joiner.parts@.len() > 0),
            joiner.parts@ == with_ocr + file_parts(files@.take(k as int)),
        decreases files@.len() - k,
    {
        joiner.add(files[k].0.as_str());
        joiner.add(files[k].1.as_str());
        assert(files@.take(k + 1).drop_last() =~= files@.take(k as int));
        assert(joiner.parts@ =~= with_ocr + file_parts(files@.take(k + 1)));
        k = k + 1;
    }
    assert(files@.take(k as int) =~= files@);
    let ghost expected = projection_parts(
        title@,
        plain_text@,
        source_app@,
        search_terms@,
        match ocr_text {
            Some(t) => Some(t@),
            None => None,
        },
        files@,
    );
    assert(joiner.parts@ =~= expected);
    let joined = string_from_chars(&joiner.out);
    normalize_search_text(joined.as_str())
}


/// Splitting on single spaces, left to right: the finished terms and the term being read.
pub open spec fn split_state(s: Seq<char>) -> (Seq<Seq<char>>, Seq<char>)
    decreases s.len(),
{
    if s.len() == 0 {
        (seq![], seq![])
    } else {
        let (done, current) = split_state(s.drop_last());
        if s.last() == ' ' {
            if current.len() > 0 {
                (done.push(current), seq![])
            } else {
                (done, current)
            }
        } else {
            (done, current.push(s.last()))
        }
    }
}

/// The non-empty pieces of a normalised query between single spaces.
pub open spec fn query_terms(s: Seq<char>) -> Seq<Seq<char>> {
    let (done, current) = split_state(s);
    if current.len() > 0 {
        done.push(current)
    } else {
        done
    }
}

/// `term` occurs in `text` as a contiguous piece.
pub open spec fn contains_seq(text: Seq<char>, term: Seq<char>) -> bool {
    exists|p: int| 0 <= p && p + term.len() <= text.len() && #[trigger] text.subrange(p, p + term.len()) == term
}

/// Every term occurs in `text`.
pub open spec fn all_terms_in(terms: Seq<Seq<char>>, text: Seq<char>) -> bool {
    forall|k: int| 0 <= k < terms.len() ==> contains_seq(text, #[trigger] terms[k])
}

/// Where a normalised query matched a record: nowhere to report when it has no
/// terms; directly when every term occurs in the normalised title, text and
/// source application; in the OCR text of an image whose recognition
/// completed; otherwise only through the search index.
pub open spec fn match_source_of(query_text: Seq<char>, item: HistoryItem) -> HistoryMatchSource {
    let terms = query_terms(query_text);
    if terms.len() == 0 {
        HistoryMatchSource::Unmatched
    } else if all_terms_in(
        terms,
        search_text(join_lines(seq![item.title@, item.content@, item.source_app@])),
    ) {
        HistoryMatchSource::Direct
    } else if item.kind@ == "image"@ && opt_view(item.ocr_status) == Some("completed"@)
        && item.ocr_text is Some && all_terms_in(terms, search_text(item.ocr_text->0@)) {
        HistoryMatchSource::Ocr
    } else {
        HistoryMatchSource::Index
    }
}

fn query_terms_of(q: &Vec<char>) -> (out: Vec<Vec<char>>)
    ensures
        out@.len() == query_terms(q@).len(),
        forall|k: int| 0 <= k < out@.len() ==> (#[trigger] out@[k])@ == query_terms(q@)[k],
{
    let mut done: Vec<Vec<char>> = Vec::new();
    let mut current: Vec<char> = Vec::new();
    let mut i: usize = 0;
    while i < q.len()
        invariant
            i <= q@.len(),
            done@.len() == split_state(q@.take(i as int)).0.len(),
            forall|k: int|
                0 <= k < done@.len() ==> (#[trigger] done@[k])@ == split_state(q@.take(i as int)).0[k],
            current@ == split_state(q@.take(i as int)).1,
        decreases q@.len() - i,
    {
        assert(q@.take(i + 1).drop_last() =~= q@.take(i as int));
        assert(q@.take(i + 1).last() == q@[i as int]);
        let c = q[i];
        if c == ' ' {
            if current.len() > 0 {
                let finished = current;
                done.push(finished);
                current = Vec::new();
            }
        } else {
            current.push(c);
        }
        i = i + 1;
    }
    assert(q@.take(i as int) =~= q@);
    if current.len() > 0 {
        done.push(current);
    }
    done
}

fn contains_chars(text: &Vec<char>, term: &Vec<char>) -> (b: bool)
    ensures
        b == contains_seq(text@, term@),
{
    let n = text.len();
    let m = term.len();
    if m > n {
        return false;
    }
    let mut p: usize = 0;
    while p <= n - m
        invariant
            n == text@.len(),
            m == term@.len(),
            m <= n,
            p <= n - m + 1,
            forall|q: int| 0 <= q < p ==> #[trigger] text@.subrange(q, q + m) != term@,
        decreases n - m + 1 - p,
    {
        let mut k: usize = 0;
        let mut same = true;
        while k < m
            invariant
                n == text@.len(),
                m == term@.len(),
                p + m <= n,
                k <= m,
                same == (forall|r: int| 0 <= r < k ==> text@[p + r] == term@[r]),
            decreases m - k,
        {
            if text[p + k] != term[k] {
                same = false;
            }
            k = k + 1;
        }
        if same {
            assert(text@.subrange(p as int, p + m) =~= term@);
            return true;
        }
        assert(text@.subrange(p as int, p + m)[0] == text@[p as int]);
        assert(text@.subrange(p as int, p + m) != term@) by {
            let r = choose|r: int| 0 <= r < m && text@[p + r] != term@[r];
            assert(text@.subrange(p as int, p + m)[r] == text@[p + r]);
        }
        p = p + 1;
    }
    assert forall|q: int| 0 <= q && q + term@.len() <= text@.len() implies #[trigger] text@.subrange(
        q,
        q + term@.len(),
    ) != term@ by {
        assert(q < p);
    }
    false
}

fn all_terms_occur(terms: &Vec<Vec<char>>, text: &Vec<char>) -> (b: bool)
    ensures
        b == (forall|k: int| 0 <= k < terms@.len() ==> contains_seq(text@, (#[trigger] terms@[k])@)),
{
    let mut i: usize = 0;
    while i < terms.len()
        invariant
            i <= terms@.len(),
            forall|k: int| 0 <= k < i ==> contains_seq(text@, (#[trigger] terms@[k])@),
        decreases terms@.len() - i,
    {
        if !contains_chars(text, &terms[i]) {
            return false;
        }
        i = i + 1;
    }
    true
}

/// Where a normalised query matched a record (see [`match_source_of`]).
pub fn history_match_source(query_text: &str, item: &HistoryItem) -> (out: HistoryMatchSource)
    ensures
        out == match_source_of(query_text@, *item),
{
    let terms = query_terms_of(&chars_of(query_text));
    let ghost spec_terms = query_terms(query_text@);
    if terms.len() == 0 {
        return HistoryMatchSource::Unmatched;
    }
    let mut joiner = LineJoiner::new();
    joiner.add(item.title.as_str());
    joiner.add(item.content.as_str());
    joiner.add(item.source_app.as_str());
    assert(joiner.parts@ =~= seq![item.title@, item.content@, item.source_app@]);
    let joined = string_from_chars(&joiner.out);
    let visible = chars_of(normalize_search_text(joined.as_str()).as_str());
    let direct = all_terms_occur(&terms, &visible);
    assert(direct == all_terms_in(spec_terms, visible@)) by {
        if direct {
            assert forall|k: int| 0 <= k < spec_terms.len() implies contains_seq(
                visible@,
                #[trigger] spec_terms[k],
            ) by {
                assert(terms@[k]@ == spec_terms[k]);
            }
        } else {
            let k = choose|k: int| 0 <= k < terms@.len() && !contains_seq(visible@, (#[trigger] terms@[k])@);
            assert(terms@[k]@ == spec_terms[k]);
        }
    }
    if direct {
        return HistoryMatchSource::Direct;
    }
    if text_eq(item.kind.as_str(), "image") && opt_text_is(&item.ocr_status, "completed") {
        if let Some(ocr) = &item.ocr_text {
            let recognised = chars_of(normalize_search_text(ocr.as_str()).as_str());
            let in_ocr = all_terms_occur(&terms, &recognised);
            assert(in_ocr == all_terms_in(spec_terms, recognised@)) by {
                if in_ocr {
                    assert forall|k: int| 0 <= k < spec_terms.len() implies contains_seq(
                        recognised@,
                        #[trigger] spec_terms[k],
                    ) by {
                        assert(terms@[k]@ == spec_terms[k]);
                    }
                } else {
                    let k = choose|k: int|
                        0 <= k < terms@.len() && !contains_seq(recognised@, (#[trigger] terms@[k])@);
                    assert(terms@[k]@ == spec_terms[k]);
                }
            }
            if in_ocr {
                return HistoryMatchSource::Ocr;
            }
        }
    }
    HistoryMatchSource::Index
}

/// A query matches a record directly exactly when it has terms and every term
/// occurs in the normalised text of the record's title, body and source
/// application, joined by line breaks; a term found in the body alone is a
/// direct match.
pub proof fn lemma_direct_match_is_visible_text(query_text: Seq<char>, item: HistoryItem)
    ensures
        (match_source_of(query_text, item) == HistoryMatchSource::Direct) <==> (query_terms(
            query_text,
        ).len() > 0 && forall|k: int|
            0 <= k < query_terms(query_text).len() ==> contains_seq(
                search_text(
                    item.title@ + seq!['\n'] + item.content@ + seq!['\n'] + item.source_app@,
                ),
                #[trigger] query_terms(query_text)[k],
            )),
{
    let parts = seq![item.title@, item.content@, item.source_app@];
    assert(parts.drop_last() =~= seq![item.title@, item.content@]);
    assert(parts.drop_last().drop_last() =~= seq![item.title@]);
    assert(join_lines(seq![item.title@]) == item.title@);
    assert(join_lines(seq![item.title@, item.content@]) == item.title@ + seq!['\n']
        + item.content@);
    assert(join_lines(parts) =~= item.title@ + seq!['\n'] + item.content@ + seq!['\n']
        + item.source_app@);
}

/// Where a query matched a record, case by case: nowhere to report for a
/// query without terms; in the OCR text of an image whose recognition
/// completed when every term occurs there but not all in the visible text;
/// otherwise, when the visible text does not hold every term, only through
/// the search index.
pub proof fn lemma_match_source_cases(query_text: Seq<char>, item: HistoryItem)
    ensures
        (match_source_of(query_text, item) == HistoryMatchSource::Unmatched) <==> query_terms(
            query_text,
        ).len() == 0,
        (match_source_of(query_text, item) == HistoryMatchSource::Ocr) <==> ({
            &&& query_terms(query_text).len() > 0
            &&& match_source_of(query_text, item) != HistoryMatchSource::Direct
            &&& item.kind@ == "image"@
            &&& opt_view(item.ocr_status) == Some("completed"@)
            &&& item.ocr_text matches Some(t) && forall|k: int|
                0 <= k < query_terms(query_text).len() ==> contains_seq(
                    search_text(t@),
                    #[trigger] query_terms(query_text)[k],
                )
        }),
        (match_source_of(query_text, item) == HistoryMatchSource::Index) <==> (query_terms(
            query_text,
        ).len() > 0 && match_source_of(query_text, item) != HistoryMatchSource::Direct
            && match_source_of(query_text, item) != HistoryMatchSource::Ocr),
{
    lemma_direct_match_is_visible_text(query_text, item);
}

} // verus!
