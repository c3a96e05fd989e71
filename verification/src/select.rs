//! Selector-based extraction from HTML documents.
//!
//! The document query itself is the work of the `scraper` crate and is
//! taken on trust behind named results; the clean-up of what it returns
//! (trimming, dropping empty entries) is verified code.

use vstd::prelude::*;
use vstd::string::StrSliceExecFns;

verus! {

/// What `scraper::Selector::parse` says about a selector string:
/// `None` when the selector is valid, otherwise the error's display text.
/// The result depends on the selector text alone.
pub uninterp spec fn sel_error(sel: Seq<char>) -> Option<Seq<char>>;

/// The concatenated text of each element a valid selector matches in a
/// document, in document order, as `scraper` computes it.  The result
/// depends on the document and selector texts alone.
pub uninterp spec fn sel_texts(html: Seq<char>, sel: Seq<char>) -> Seq<Seq<char>>;

/// The value of the given attribute on each element a valid selector
/// matches that carries it, in document order, as `scraper` computes it.
/// The result depends on the document, selector and attribute texts alone.
pub uninterp spec fn sel_attrs(html: Seq<char>, sel: Seq<char>, attr: Seq<char>) -> Seq<Seq<char>>;

/// Relies on `scraper::Selector::parse`, `scraper::Html::parse_document`
/// and `scraper::element_ref::ElementRef::text`: parses the selector
/// (its error is returned as text), parses the document, and collects
/// the concatenated text of every match.  The whole query is the
/// outside call; nothing is filtered or reordered here.
#[verifier::external_body]
fn select_texts(html: &str, sel: &str) -> (r: Result<Vec<String>, String>)
    ensures
        r is Ok <==> sel_error(sel@) is None,
        r matches Ok(v) ==> v.deep_view() == sel_texts(html@, sel@),
        r matches Err(e) ==> sel_error(sel@) == Some(e@),
{
    match scraper::Selector::parse(sel) {
        Ok(s) => {
            let doc = scraper::Html::parse_document(html);
            Ok(doc.select(&s).map(|el| el.text().collect::<String>()).collect())
        },
        Err(e) => Err(e.to_string()),
    }
}

/// Relies on `scraper::Selector::parse`, `scraper::Html::parse_document`
/// and `scraper::element_ref::ElementRef::attr`: collects the given
/// attribute of every match that carries it, skipping matches without
/// it, exactly as the crate's query yields them.
#[verifier::external_body]
fn select_attrs(html: &str, sel: &str, attr: &str) -> (r: Result<Vec<String>, String>)
    ensures
        r is Ok <==> sel_error(sel@) is None,
        r matches Ok(v) ==> v.deep_view() == sel_attrs(html@, sel@, attr@),
        r matches Err(e) ==> sel_error(sel@) == Some(e@),
{
    match scraper::Selector::parse(sel) {
        Ok(s) => {
            let doc = scraper::Html::parse_document(html);
            Ok(doc.select(&s).filter_map(|el| el.attr(attr)).map(|a| a.to_string()).collect())
        },
        Err(e) => Err(e.to_string()),
    }
}

/// An ASCII whitespace character.
pub open spec fn is_space(c: char) -> bool {
    c == ' ' || c == '\t' || c == '\n' || c == '\r' || c == '\u{b}' || c == '\u{c}'
}

/// The sequence without its leading whitespace.
pub open spec fn trim_start_view(s: Seq<char>) -> Seq<char>
    decreases s.len(),
{
    if s.len() > 0 && is_space(s[0]) {
        trim_start_view(s.skip(1))
    } else {
        s
    }
}

/// The sequence without its trailing whitespace.
pub open spec fn trim_end_view(s: Seq<char>) -> Seq<char>
    decreases s.len(),
{
    if s.len() > 0 && is_space(s.last()) {
        trim_end_view(s.drop_last())
    } else {
        s
    }
}

/// The sequence without leading and trailing whitespace.
pub open spec fn trim_view(s: Seq<char>) -> Seq<char> {
    trim_end_view(trim_start_view(s))
}

proof fn lemma_trim_start_skip(s: Seq<char>, i: int)
    requires
        0 <= i <= s.len(),
        forall|j: int| 0 <= j < i ==> is_space(s[j]),
        i == s.len() || !is_space(s[i]),
    ensures
        trim_start_view(s) == s.skip(i),
    decreases i,
{
    if i > 0 {
        lemma_trim_start_skip(s.skip(1), i - 1);
        assert(s.skip(1).skip(i - 1) =~= s.skip(i));
    } else {
        assert(s.skip(0) =~= s);
    }
}

proof fn lemma_trim_end_take(s: Seq<char>, e: int)
    requires
        0 <= e <= s.len(),
        forall|j: int| e <= j < s.len() ==> is_space(s[j]),
        e == 0 || !is_space(s[e - 1]),
    ensures
        trim_end_view(s) == s.take(e),
    decreases s.len() - e,
{
    if e < s.len() {
        lemma_trim_end_take(s.drop_last(), e);
        assert(s.drop_last().take(e) =~= s.take(e));
    } else {
        assert(s.take(s.len() as int) =~= s);
    }
}

/// ASCII-whitespace trimming of a string slice.
pub fn trim_str(s: &str) -> (r: &str)
    ensures
        r@ == trim_view(s@),
{
    let len = s.unicode_len();
    let mut start: usize = 0;
    loop
        invariant_except_break
            start <= len,
            len == s@.len(),
            forall|j: int| 0 <= j < start ==> is_space(s@[j]),
        ensures
            start <= len,
            len == s@.len(),
            forall|j: int| 0 <= j < start ==> is_space(s@[j]),
            start == len || !is_space(s@[start as int]),
        decreases len - start,
    {
        if start == len {
            break ;
        }
        let c = s.get_char(start);
        if !(c == ' ' || c == '\t' || c == '\n' || c == '\r' || c == '\u{b}' || c == '\u{c}') {
            break ;
        }
        start += 1;
    }
    let mut end: usize = len;
    loop
        invariant_except_break
            start <= end <= len,
            len == s@.len(),
            forall|j: int| end <= j < len ==> is_space(s@[j]),
        ensures
            start <= end <= len,
            len == s@.len(),
            forall|j: int| end <= j < len ==> is_space(s@[j]),
            end == start || !is_space(s@[end - 1]),
        decreases end,
    {
        if end == start {
            break ;
        }
        let c = s.get_char(end - 1);
        if !(c == ' ' || c == '\t' || c == '\n' || c == '\r' || c == '\u{b}' || c == '\u{c}') {
            break ;
        }
        end -= 1;
    }
    proof {
        lemma_trim_start_skip(s@, start as int);
        let t = s@.skip(start as int);
        lemma_trim_end_take(t, end - start as int);
        assert(s@.subrange(start as int, end as int) =~= t.take(end - start as int));
    }
    s.substring_char(start, end)
}

/// Trimmed entries, with the empty ones dropped, in order.
pub open spec fn tidy(ts: Seq<Seq<char>>) -> Seq<Seq<char>>
    decreases ts.len(),
{
    if ts.len() == 0 {
        Seq::empty()
    } else {
        let rest = tidy(ts.drop_last());
        let t = trim_view(ts.last());
        if t.len() == 0 {
            rest
        } else {
            rest.push(t)
        }
    }
}

/// Trims every entry and drops the ones that become empty.
pub fn tidy_texts(ts: &Vec<String>) -> (r: Vec<String>)
    ensures
        r.deep_view() == tidy(ts.deep_view()),
{
    let mut out: Vec<String> = Vec::new();
    let n = ts.len();
    let mut i: usize = 0;
    proof {
        assert(ts.deep_view().take(0) =~= Seq::<Seq<char>>::empty());
    }
    while i < n
        invariant
            i <= n,
            n == ts@.len(),
            ts.deep_view().len() == ts@.len(),
            forall|j: int| 0 <= j < n ==> ts.deep_view()[j] == ts@[j]@,
            out.deep_view() == tidy(ts.deep_view().take(i as int)),
        decreases n - i,
    {
        let piece = trim_str(ts[i].as_str());
        if piece.unicode_len() > 0 {
            out.push(piece.to_owned());
        }
        proof {
            let dv = ts.deep_view();
            assert(dv.take(i as int + 1).drop_last() =~= dv.take(i as int));
            assert(dv.take(i as int + 1).last() == dv[i as int]);
            assert(out.deep_view() =~= tidy(dv.take(i as int + 1)));
        }
        i += 1;
    }
    proof {
        assert(ts.deep_view().take(n as int) =~= ts.deep_view());
    }
    out
}

/// Runs a selector over a document and returns the tidied text of every
/// match, or the selector's parse-error text.
pub fn query_texts(html: &str, sel: &str) -> (r: Result<Vec<String>, String>)
    ensures
        r is Ok <==> sel_error(sel@) is None,
        r matches Ok(v) ==> v.deep_view() == tidy(sel_texts(html@, sel@)),
        r matches Err(e) ==> sel_error(sel@) == Some(e@),
{
    match select_texts(html, sel) {
        Ok(v) => Ok(tidy_texts(&v)),
        Err(e) => Err(e),
    }
}

/// Runs a selector over a document and returns the given attribute of
/// every match that carries it, or the selector's parse-error text.
pub fn query_attrs(html: &str, sel: &str, attr: &str) -> (r: Result<Vec<String>, String>)
    ensures
        r is Ok <==> sel_error(sel@) is None,
        r matches Ok(v) ==> v.deep_view() == sel_attrs(html@, sel@, attr@),
        r matches Err(e) ==> sel_error(sel@) == Some(e@),
{
    select_attrs(html, sel, attr)
}

} // verus!
