//! The structured values a run extracts, and their JSON text form.
//!
//! The library renders its own JSON: the spec functions below define the
//! exact text, escaping included, and the exec functions are verified
//! against them.  A value parsed out of a foreign document is carried as
//! already-serialized text (`JsonValue::Raw`) and emitted verbatim.

use vstd::prelude::*;
use vstd::string::StrSliceExecFns;
use vstd::string::StringExecFns;
use crate::strutil::{hex_digit, hex_str};
use crate::strmap::StrMap;

verus! {

/// A structured extraction result.
#[derive(Debug, Clone, PartialEq, Eq)]
pub enum JsonValue {
    /// A JSON array of strings, as the selector, pattern and attribute
    /// stages produce.
    Texts(Vec<String>),
    /// A single JSON string, as the model-assisted stage produces.
    Text(String),
    /// Already-serialized JSON text, emitted verbatim; carries a
    /// sub-document picked out of a parsed input.
    Raw(String),
}

/// The spec-level shape of a [`JsonValue`].
#[verifier::ext_equal]
pub enum JsonValueView {
    Texts(Seq<Seq<char>>),
    Text(Seq<char>),
    Raw(Seq<char>),
}

impl View for JsonValue {
    type V = JsonValueView;

    open spec fn view(&self) -> JsonValueView {
        match self {
            JsonValue::Texts(ts) => JsonValueView::Texts(ts.deep_view()),
            JsonValue::Text(s) => JsonValueView::Text(s@),
            JsonValue::Raw(t) => JsonValueView::Raw(t@),
        }
    }
}

/// How one character appears inside a JSON string literal.
pub open spec fn escape_char(c: char) -> Seq<char> {
    if c == '"' {
        seq!['\\', '"']
    } else if c == '\\' {
        seq!['\\', '\\']
    } else if c == '\n' {
        seq!['\\', 'n']
    } else if c == '\r' {
        seq!['\\', 'r']
    } else if c == '\t' {
        seq!['\\', 't']
    } else if (c as u32) < 32 {
        seq!['\\', 'u', '0', '0'] + seq![
            hex_digit(((c as u32) / 16) as nat),
            hex_digit(((c as u32) % 16) as nat),
        ]
    } else {
        seq![c]
    }
}

/// A whole string, escaped character by character.
pub open spec fn escape_seq(s: Seq<char>) -> Seq<char>
    decreases s.len(),
{
    if s.len() == 0 {
        Seq::empty()
    } else {
        escape_seq(s.drop_last()) + escape_char(s.last())
    }
}

/// A JSON string literal: the escaped text in double quotes.
pub open spec fn quoted(s: Seq<char>) -> Seq<char> {
    seq!['"'] + escape_seq(s) + seq!['"']
}

/// Comma-separated JSON string literals.
pub open spec fn join_quoted(ts: Seq<Seq<char>>) -> Seq<char>
    decreases ts.len(),
{
    if ts.len() == 0 {
        Seq::empty()
    } else if ts.len() == 1 {
        quoted(ts[0])
    } else {
        join_quoted(ts.drop_last()) + seq![','] + quoted(ts.last())
    }
}

/// A JSON array of strings.
pub open spec fn render_texts(ts: Seq<Seq<char>>) -> Seq<char> {
    seq!['['] + join_quoted(ts) + seq![']']
}

/// The JSON text of one extraction value.
pub open spec fn render_value(v: JsonValueView) -> Seq<char> {
    match v {
        JsonValueView::Texts(ts) => render_texts(ts),
        JsonValueView::Text(s) => quoted(s),
        JsonValueView::Raw(t) => t,
    }
}

/// Comma-separated `"key":value` members, in entry order.
pub open spec fn join_members(ps: Seq<(Seq<char>, JsonValueView)>) -> Seq<char>
    decreases ps.len(),
{
    if ps.len() == 0 {
        Seq::empty()
    } else if ps.len() == 1 {
        quoted(ps[0].0) + seq![':'] + render_value(ps[0].1)
    } else {
        join_members(ps.drop_last()) + seq![','] + quoted(ps.last().0) + seq![':'] + render_value(
            ps.last().1,
        )
    }
}

/// A JSON object holding every entry of an extraction map, in entry order.
pub open spec fn render_object(ps: Seq<(Seq<char>, JsonValueView)>) -> Seq<char> {
    seq!['{'] + join_members(ps) + seq!['}']
}

/// Comma-separated two-element arrays `["key","value"]`.
pub open spec fn join_pairs(ps: Seq<(Seq<char>, Seq<char>)>) -> Seq<char>
    decreases ps.len(),
{
    if ps.len() == 0 {
        Seq::empty()
    } else if ps.len() == 1 {
        seq!['['] + quoted(ps[0].0) + seq![','] + quoted(ps[0].1) + seq![']']
    } else {
        join_pairs(ps.drop_last()) + seq![','] + seq!['['] + quoted(ps.last().0) + seq![',']
            + quoted(ps.last().1) + seq![']']
    }
}

/// A JSON array of two-element string arrays.
pub open spec fn render_pairs(ps: Seq<(Seq<char>, Seq<char>)>) -> Seq<char> {
    seq!['['] + join_pairs(ps) + seq![']']
}

/// Appends the escaped form of `s`.
pub fn escape_into(out: &mut String, s: &str)
    ensures
        final(out)@ == old(out)@ + escape_seq(s@),
{
    let len = s.unicode_len();
    let mut i: usize = 0;
    proof {
        assert(s@.take(0) =~= Seq::<char>::empty());
        assert(old(out)@ + escape_seq(s@.take(0)) =~= old(out)@);
    }
    while i < len
        invariant
            i <= len,
            len == s@.len(),
            out@ == old(out)@ + escape_seq(s@.take(i as int)),
        decreases len - i,
    {
        let c = s.get_char(i);
        if c == '"' {
            out.append("\\\"");
            proof {
                reveal_strlit("\\\"");
                assert("\\\""@ =~= escape_char(c));
            }
        } else if c == '\\' {
            out.append("\\\\");
            proof {
                reveal_strlit("\\\\");
                assert("\\\\"@ =~= escape_char(c));
            }
        } else if c == '\n' {
            out.append("\\n");
            proof {
                reveal_strlit("\\n");
                assert("\\n"@ =~= escape_char(c));
            }
        } else if c == '\r' {
            out.append("\\r");
            proof {
                reveal_strlit("\\r");
                assert("\\r"@ =~= escape_char(c));
            }
        } else if c == '\t' {
            out.append("\\t");
            proof {
                reveal_strlit("\\t");
                assert("\\t"@ =~= escape_char(c));
            }
        } else if (c as u32) < 32 {
            out.append("\\u00");
            out.append(hex_str(((c as u32) / 16) as u64));
            out.append(hex_str(((c as u32) % 16) as u64));
            proof {
                reveal_strlit("\\u00");
                assert("\\u00"@ + seq![hex_digit(((c as u32) / 16) as nat)] + seq![
                    hex_digit(((c as u32) % 16) as nat),
                ] =~= escape_char(c));
            }
        } else {
            let piece = s.substring_char(i, i + 1);
            out.append(piece);
            proof {
                assert(s@.subrange(i as int, i as int + 1) =~= seq![s@[i as int]]);
                assert(seq![s@[i as int]] =~= escape_char(s@[i as int]));
            }
        }
        proof {
            assert(s@.take(i as int + 1).drop_last() =~= s@.take(i as int));
            assert(s@.take(i as int + 1).last() == s@[i as int]);
            assert(out@ =~= old(out)@ + escape_seq(s@.take(i as int + 1)));
        }
        i += 1;
    }
    proof {
        assert(s@.take(len as int) =~= s@);
    }
}

/// Appends a JSON string literal.
pub fn quote_into(out: &mut String, s: &str)
    ensures
        final(out)@ == old(out)@ + quoted(s@),
{
    proof {
        reveal_strlit("\"");
    }
    out.append("\"");
    escape_into(out, s);
    out.append("\"");
    proof {
        assert(old(out)@ + seq!['"'] + escape_seq(s@) + seq!['"'] =~= old(out)@ + quoted(s@));
        assert("\""@ =~= seq!['"']);
    }
}

/// Appends the JSON array form of a list of strings.
pub fn texts_into(out: &mut String, ts: &Vec<String>)
    ensures
        final(out)@ == old(out)@ + render_texts(ts.deep_view()),
{
    proof {
        reveal_strlit("[");
        reveal_strlit("]");
        reveal_strlit(",");
        assert("["@ =~= seq!['[']);
        assert("]"@ =~= seq![']']);
        assert(","@ =~= seq![',']);
    }
    out.append("[");
    let n = ts.len();
    let mut i: usize = 0;
    while i < n
        invariant
            i <= n,
            n == ts.deep_view().len(),
            ts.deep_view().len() == ts@.len(),
            forall|j: int| 0 <= j < n ==> ts.deep_view()[j] == ts@[j]@,
            out@ == old(out)@ + seq!['['] + join_quoted(ts.deep_view().take(i as int)),
        decreases n - i,
    {
        proof {
            reveal_strlit(",");
            assert(","@ =~= seq![',']);
        }
        if i > 0 {
            out.append(",");
        }
        quote_into(out, ts[i].as_str());
        proof {
            let dv = ts.deep_view();
            let t1 = dv.take(i as int + 1);
            assert(t1.len() == i + 1);
            if i == 0 {
                assert(t1[0] == dv[0]);
                assert(join_quoted(t1) == quoted(dv[0]));
                assert(dv.take(0) =~= Seq::<Seq<char>>::empty());
            } else {
                assert(t1.drop_last() =~= dv.take(i as int));
                assert(t1.last() == dv[i as int]);
            }
            assert(out@ =~= old(out)@ + seq!['['] + join_quoted(t1));
        }
        i += 1;
    }
    out.append("]");
    proof {
        assert(ts.deep_view().take(n as int) =~= ts.deep_view());
        assert(out@ =~= old(out)@ + render_texts(ts.deep_view()));
    }
}

/// Appends the JSON text of one extraction value.
pub fn value_into(out: &mut String, v: &JsonValue)
    ensures
        final(out)@ == old(out)@ + render_value(v@),
{
    match v {
        JsonValue::Texts(ts) => texts_into(out, ts),
        JsonValue::Text(s) => quote_into(out, s.as_str()),
        JsonValue::Raw(t) => out.append(t.as_str()),
    }
}

/// The JSON object text of a whole extraction map, in entry order.
pub fn render_extracted(m: &StrMap<JsonValue>) -> (r: String)
    ensures
        r@ == render_object(m@),
{
    proof {
        reveal_strlit("{");
        reveal_strlit("}");
        reveal_strlit(",");
        reveal_strlit(":");
        assert("{"@ =~= seq!['{']);
        assert("}"@ =~= seq!['}']);
        assert(","@ =~= seq![',']);
        assert(":"@ =~= seq![':']);
    }
    let mut out = String::new();
    out.append("{");
    let n = m.len();
    let mut i: usize = 0;
    while i < n
        invariant
            i <= n,
            n == m@.len(),
            out@ == seq!['{'] + join_members(m@.take(i as int)),
        decreases n - i,
    {
        proof {
            reveal_strlit(",");
            reveal_strlit(":");
            assert(","@ =~= seq![',']);
            assert(":"@ =~= seq![':']);
        }
        if i > 0 {
            out.append(",");
        }
        let entry = m.entry_at(i);
        quote_into(&mut out, entry.0.as_str());
        out.append(":");
        value_into(&mut out, &entry.1);
        proof {
            let t1 = m@.take(i as int + 1);
            assert(t1.len() == i + 1);
            if i == 0 {
                assert(t1[0] == m@[0]);
                assert(join_members(t1) == quoted(m@[0].0) + seq![':'] + render_value(m@[0].1));
                assert(m@.take(0) =~= Seq::<(Seq<char>, JsonValueView)>::empty());
            } else {
                assert(t1.drop_last() =~= m@.take(i as int));
                assert(t1.last() == m@[i as int]);
            }
            assert(out@ =~= seq!['{'] + join_members(t1));
        }
        i += 1;
    }
    out.append("}");
    proof {
        assert(m@.take(n as int) =~= m@);
        assert(out@ =~= render_object(m@));
    }
    out
}

/// The JSON text of a list of key/selector pairs, as two-element arrays.
pub fn render_pair_list(ps: &Vec<(String, String)>) -> (r: String)
    ensures
        r@ == render_pairs(ps.deep_view()),
{
    proof {
        reveal_strlit("[");
        reveal_strlit("]");
        reveal_strlit(",");
        assert("["@ =~= seq!['[']);
        assert("]"@ =~= seq![']']);
        assert(","@ =~= seq![',']);
    }
    let mut out = String::new();
    out.append("[");
    let n = ps.len();
    let mut i: usize = 0;
    while i < n
        invariant
            i <= n,
            n == ps.deep_view().len(),
            ps.deep_view().len() == ps@.len(),
            forall|j: int|
                0 <= j < n ==> ps.deep_view()[j] == (ps@[j].0@, ps@[j].1@),
            out@ == seq!['['] + join_pairs(ps.deep_view().take(i as int)),
        decreases n - i,
    {
        proof {
            reveal_strlit(",");
            reveal_strlit("[");
            reveal_strlit("]");
            assert(","@ =~= seq![',']);
            assert("["@ =~= seq!['[']);
            assert("]"@ =~= seq![']']);
        }
        if i > 0 {
            out.append(",");
        }
        out.append("[");
        quote_into(&mut out, ps[i].0.as_str());
        out.append(",");
        quote_into(&mut out, ps[i].1.as_str());
        out.append("]");
        proof {
            let dv = ps.deep_view();
            let t1 = dv.take(i as int + 1);
            assert(t1.len() == i + 1);
            if i == 0 {
                assert(t1[0] == dv[0]);
                assert(join_pairs(t1) == seq!['['] + quoted(dv[0].0) + seq![','] + quoted(
                    dv[0].1,
                ) + seq![']']);
                assert(dv.take(0) =~= Seq::<(Seq<char>, Seq<char>)>::empty());
            } else {
                assert(t1.drop_last() =~= dv.take(i as int));
                assert(t1.last() == dv[i as int]);
            }
            assert(out@ =~= seq!['['] + join_pairs(t1));
        }
        i += 1;
    }
    out.append("]");
    proof {
        assert(ps.deep_view().take(n as int) =~= ps.deep_view());
        assert(out@ =~= render_pairs(ps.deep_view()));
    }
    out
}

} // verus!
