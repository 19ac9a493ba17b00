//! Verified JSON serialization of question records.
//!
//! The wire shape is a JSON array of objects with the fields `id`,
//! `title`, `content` and `tags` in that order, `tags` being `null`
//! when absent.  String literals escape the quote, the backslash and
//! every control character; all other characters stand as themselves.
//! The spec functions here define the wire format; the executable
//! functions are proved to emit exactly it, so identical inputs always
//! give byte-identical bodies.

use vstd::prelude::*;
use vstd::string::StrSliceExecFns;
use vstd::string::StringExecFns;

use crate::question::Question;
use crate::question::QuestionView;

verus! {

/// Relies on std's `String::push`: appends the given character to the
/// end of the string.
pub assume_specification[ String::push ](s: &mut String, c: char)
    ensures
        final(s)@ == old(s)@.push(c),
;

/// The lowercase hexadecimal digit for a value below sixteen.
pub open spec fn hex_digit(n: int) -> char {
    if n == 0 {
        '0'
    } else if n == 1 {
        '1'
    } else if n == 2 {
        '2'
    } else if n == 3 {
        '3'
    } else if n == 4 {
        '4'
    } else if n == 5 {
        '5'
    } else if n == 6 {
        '6'
    } else if n == 7 {
        '7'
    } else if n == 8 {
        '8'
    } else if n == 9 {
        '9'
    } else if n == 10 {
        'a'
    } else if n == 11 {
        'b'
    } else if n == 12 {
        'c'
    } else if n == 13 {
        'd'
    } else if n == 14 {
        'e'
    } else {
        'f'
    }
}

/// How one character appears inside a JSON string literal.
pub open spec fn escape_char(c: char) -> Seq<char> {
    if c == '"' {
        "\\\""@
    } else if c == '\\' {
        "\\\\"@
    } else if c == '\u{8}' {
        "\\b"@
    } else if c == '\t' {
        "\\t"@
    } else if c == '\n' {
        "\\n"@
    } else if c == '\u{c}' {
        "\\f"@
    } else if c == '\r' {
        "\\r"@
    } else if (c as u32) < 32 {
        "\\u00"@ + seq![hex_digit(c as u32 as int / 16), hex_digit(c as u32 as int % 16)]
    } else {
        seq![c]
    }
}

/// A whole character sequence escaped for a JSON string literal.
pub open spec fn escape_seq(s: Seq<char>) -> Seq<char>
    decreases s.len(),
{
    if s.len() == 0 {
        Seq::empty()
    } else {
        escape_seq(s.drop_last()) + escape_char(s.last())
    }
}

/// A JSON string literal: the escaped text between quotes.
pub open spec fn json_string(s: Seq<char>) -> Seq<char> {
    seq!['"'] + escape_seq(s) + seq!['"']
}

/// The comma-joined members of a JSON array of strings.
pub open spec fn json_strings_body(ts: Seq<Seq<char>>) -> Seq<char>
    decreases ts.len(),
{
    if ts.len() == 0 {
        Seq::empty()
    } else if ts.len() == 1 {
        json_string(ts[0])
    } else {
        json_strings_body(ts.drop_last()) + seq![','] + json_string(ts.last())
    }
}

/// How the optional tag list appears: `null` when absent, else a JSON
/// array of strings — an empty list is distinct from absence.
pub open spec fn json_tags(tags: Option<Seq<Seq<char>>>) -> Seq<char> {
    match tags {
        Option::None => "null"@,
        Option::Some(ts) => seq!['['] + json_strings_body(ts) + seq![']'],
    }
}

/// One record as a JSON object, fields in fixed order.
pub open spec fn json_question(q: QuestionView) -> Seq<char> {
    "{\"id\":"@ + json_string(q.id) + ",\"title\":"@ + json_string(q.title) + ",\"content\":"@
        + json_string(q.content) + ",\"tags\":"@ + json_tags(q.tags) + seq!['}']
}

/// The comma-joined members of a JSON array of records.
pub open spec fn json_questions_body(qs: Seq<QuestionView>) -> Seq<char>
    decreases qs.len(),
{
    if qs.len() == 0 {
        Seq::empty()
    } else if qs.len() == 1 {
        json_question(qs[0])
    } else {
        json_questions_body(qs.drop_last()) + seq![','] + json_question(qs.last())
    }
}

/// A record sequence as a JSON array.
pub open spec fn json_questions(qs: Seq<QuestionView>) -> Seq<char> {
    seq!['['] + json_questions_body(qs) + seq![']']
}

/// The executable lowercase hexadecimal digit.
fn hex_char(n: u8) -> (c: char)
    requires
        n < 16,
    ensures
        c == hex_digit(n as int),
{
    if n == 0 {
        '0'
    } else if n == 1 {
        '1'
    } else if n == 2 {
        '2'
    } else if n == 3 {
        '3'
    } else if n == 4 {
        '4'
    } else if n == 5 {
        '5'
    } else if n == 6 {
        '6'
    } else if n == 7 {
        '7'
    } else if n == 8 {
        '8'
    } else if n == 9 {
        '9'
    } else if n == 10 {
        'a'
    } else if n == 11 {
        'b'
    } else if n == 12 {
        'c'
    } else if n == 13 {
        'd'
    } else if n == 14 {
        'e'
    } else {
        'f'
    }
}

/// Appends `s` to `out` with every character escaped as a JSON string
/// literal demands.
fn push_escaped(out: &mut String, s: &str)
    ensures
        final(out)@ == old(out)@ + escape_seq(s@),
{
    let n = s.unicode_len();
    let mut i: usize = 0;
    proof {
        assert(escape_seq(s@.take(0)) =~= Seq::<char>::empty());
        assert(old(out)@ + escape_seq(s@.take(0)) =~= old(out)@);
    }
    while i < n
        invariant
            i <= n,
            n == s@.len(),
            out@ == old(out)@ + escape_seq(s@.take(i as int)),
        decreases n - i,
    {
        let c = s.get_char(i);
        if c == '"' {
            out.append("\\\"");
        } else if c == '\\' {
            out.append("\\\\");
        } else if c == '\u{8}' {
            out.append("\\b");
        } else if c == '\t' {
            out.append("\\t");
        } else if c == '\n' {
            out.append("\\n");
        } else if c == '\u{c}' {
            out.append("\\f");
        } else if c == '\r' {
            out.append("\\r");
        } else {
            let u = c as u32;
            if u < 32 {
                out.append("\\u00");
                out.push(hex_char((u / 16) as u8));
                out.push(hex_char((u % 16) as u8));
            } else {
                out.push(c);
            }
        }
        i = i + 1;
        proof {
            assert(s@.take(i as int).drop_last() =~= s@.take(i - 1));
            assert(s@.take(i as int).last() == s@[i - 1]);
            assert(escape_seq(s@.take(i as int)) == escape_seq(s@.take(i - 1)) + escape_char(
                s@[i - 1],
            ));
            assert(out@ =~= old(out)@ + escape_seq(s@.take(i as int)));
        }
    }
    proof {
        assert(s@.take(n as int) =~= s@);
    }
}

/// Appends the JSON string literal for `s`.
fn push_json_string(out: &mut String, s: &str)
    ensures
        final(out)@ == old(out)@ + json_string(s@),
{
    out.push('"');
    push_escaped(out, s);
    out.push('"');
    proof {
        assert(out@ =~= old(out)@ + json_string(s@));
    }
}

/// Appends the JSON rendering of the optional tag list.
fn push_tags(out: &mut String, tags: &Option<Vec<String>>)
    ensures
        final(out)@ == old(out)@ + json_tags(tags.deep_view()),
{
    match tags {
        Option::None => {
            out.append("null");
        },
        Option::Some(ts) => {
            let ghost dv = ts.deep_view();
            out.push('[');
            let mut i: usize = 0;
            proof {
                assert(json_strings_body(dv.take(0)) =~= Seq::<char>::empty());
                assert(out@ =~= old(out)@ + seq!['['] + json_strings_body(dv.take(0)));
            }
            while i < ts.len()
                invariant
                    i <= ts.len(),
                    dv == ts.deep_view(),
                    dv.len() == ts@.len(),
                    out@ == old(out)@ + seq!['['] + json_strings_body(dv.take(i as int)),
                decreases ts.len() - i,
            {
                if i > 0 {
                    out.push(',');
                }
                push_json_string(out, ts[i].as_str());
                i = i + 1;
                proof {
                    lemma_strings_body_snoc(dv, i - 1);
                    assert(out@ =~= old(out)@ + seq!['['] + json_strings_body(dv.take(i as int)));
                }
            }
            out.push(']');
            proof {
                assert(dv.take(ts@.len() as int) =~= dv);
                assert(out@ =~= old(out)@ + json_tags(tags.deep_view()));
            }
        },
    }
}

/// One member appended to a string-array body extends it by a comma
/// (past the first member) and the member's literal.
proof fn lemma_strings_body_snoc(ts: Seq<Seq<char>>, i: int)
    requires
        0 <= i < ts.len(),
    ensures
        json_strings_body(ts.take(i + 1)) == if i == 0 {
            json_string(ts[0])
        } else {
            json_strings_body(ts.take(i)) + seq![','] + json_string(ts[i])
        },
{
    assert(ts.take(i + 1).drop_last() =~= ts.take(i));
    assert(ts.take(i + 1).last() == ts[i]);
    if i == 0 {
        assert(ts.take(1).len() == 1);
        assert(ts.take(1)[0] == ts[0]);
    }
}

/// One record appended to a record-array body extends it by a comma
/// (past the first record) and the record's object.
proof fn lemma_questions_body_snoc(qs: Seq<QuestionView>, start: int, i: int)
    requires
        0 <= start <= i < qs.len(),
    ensures
        json_questions_body(qs.subrange(start, i + 1)) == if i == start {
            json_question(qs[start])
        } else {
            json_questions_body(qs.subrange(start, i)) + seq![','] + json_question(qs[i])
        },
{
    assert(qs.subrange(start, i + 1).drop_last() =~= qs.subrange(start, i));
    assert(qs.subrange(start, i + 1).last() == qs[i]);
    if i == start {
        assert(qs.subrange(start, start + 1).len() == 1);
        assert(qs.subrange(start, start + 1)[0] == qs[start]);
    }
}

/// Appends one record as a JSON object.
fn push_question(out: &mut String, q: &Question)
    ensures
        final(out)@ == old(out)@ + json_question(q@),
{
    out.append("{\"id\":");
    push_json_string(out, q.id.as_str());
    out.append(",\"title\":");
    push_json_string(out, q.title.as_str());
    out.append(",\"content\":");
    push_json_string(out, q.content.as_str());
    out.append(",\"tags\":");
    push_tags(out, &q.tags);
    out.push('}');
    proof {
        assert(out@ =~= old(out)@ + json_question(q@));
    }
}

/// Serializes the records in positions `[start, end)` as a JSON array.
#[verifier::rlimit(50)]
pub fn serialize_range(qs: &Vec<Question>, start: usize, end: usize) -> (r: String)
    requires
        start <= end <= qs@.len(),
    ensures
        r@ == json_questions(qs.deep_view().subrange(start as int, end as int)),
{
    let ghost dv = qs.deep_view();
    let mut out = String::new();
    out.push('[');
    let mut i: usize = start;
    proof {
        assert(json_questions_body(dv.subrange(start as int, start as int)) =~= Seq::<
            char,
        >::empty());
        assert(out@ =~= seq!['['] + json_questions_body(dv.subrange(start as int, start as int)));
    }
    while i < end
        invariant
            start <= i <= end <= qs@.len(),
            dv == qs.deep_view(),
            dv.len() == qs@.len(),
            out@ == seq!['['] + json_questions_body(dv.subrange(start as int, i as int)),
        decreases end - i,
    {
        if i > start {
            out.push(',');
        }
        push_question(&mut out, &qs[i]);
        i = i + 1;
        proof {
            lemma_questions_body_snoc(dv, start as int, i - 1);
            assert(out@ =~= seq!['['] + json_questions_body(dv.subrange(start as int, i as int)));
        }
    }
    out.push(']');
    proof {
        assert(out@ =~= json_questions(dv.subrange(start as int, end as int)));
    }
    out
}

/// Serializes a whole record sequence as a JSON array.
pub fn serialize_questions(qs: &Vec<Question>) -> (r: String)
    ensures
        r@ == json_questions(qs.deep_view()),
{
    let n = qs.len();
    let r = serialize_range(qs, 0, n);
    proof {
        assert(qs.deep_view().subrange(0, n as int) =~= qs.deep_view());
    }
    r
}

} // verus!
