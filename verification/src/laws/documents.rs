//! What holds of JSON documents and of the answers of the `aws` tool.

use vstd::prelude::*;

use crate::aws;
use crate::aws::CliOutput;
use crate::json;
use crate::laws::strings;
use crate::text;

verus! {

/// The member of an object is what its first field of that name holds; nothing
/// but an object has members.
pub proof fn law_members(doc: json::JsonView, key: Seq<char>) -> (i: int)
    ensures
        doc matches json::JsonView::Object(fields) ==> match doc.member(key) {
            Some(v) => 0 <= i < fields.len() && fields[i] == (key, v) && forall|j: int|
                0 <= j < i ==> (#[trigger] fields[j]).0 != key,
            None => forall|j: int| 0 <= j < fields.len() ==> (#[trigger] fields[j]).0 != key,
        },
        !(doc is Object) ==> doc.member(key) is None,
{
    match doc {
        json::JsonView::Object(fields) => lemma_field(fields, key),
        _ => 0,
    }
}

proof fn lemma_field(fields: Seq<(Seq<char>, json::JsonView)>, key: Seq<char>) -> (i: int)
    ensures
        match json::field(fields, key) {
            Some(v) => 0 <= i < fields.len() && fields[i] == (key, v) && forall|j: int|
                0 <= j < i ==> (#[trigger] fields[j]).0 != key,
            None => forall|j: int| 0 <= j < fields.len() ==> (#[trigger] fields[j]).0 != key,
        },
    decreases fields.len(),
{
    if fields.len() == 0 || fields[0].0 == key {
        0
    } else {
        let rest = fields.drop_first();
        let k = lemma_field(rest, key);
        assert forall|j: int|
            0 <= j < fields.len() && (json::field(fields, key) is None || j < k + 1) implies (
        #[trigger] fields[j]).0 != key by {
            if j > 0 {
                assert(rest[j - 1] == fields[j]);
            }
        }
        k + 1
    }
}

/// Texts, arrays and numbers are taken for what they are, and nothing else is.
pub proof fn law_kinds_of_values(v: json::JsonView)
    ensures
        v.text() == match v {
            json::JsonView::Text(s) => Some(s),
            _ => None,
        },
        v.elements() == match v {
            json::JsonView::List(items) => Some(items),
            _ => None,
        },
        v.unsigned() == match v {
            json::JsonView::Number(n) => n,
            _ => None,
        },
{
}

/// A member that is a text, or an array, is the member.
pub proof fn law_kinds_of_members(doc: json::JsonView, key: Seq<char>)
    ensures
        doc.member_text(key) matches Some(s) ==> doc.member(key) == Some(json::JsonView::Text(s)),
        doc.member_text(key) is None ==> !(doc.member(key) is Some && doc.member(key)->0 is Text),
        doc.member_elements(key) matches Some(items) ==> doc.member(key) == Some(
            json::JsonView::List(items),
        ),
        doc.member_elements(key) is None ==> !(doc.member(key) is Some && doc.member(
            key,
        )->0 is List),
{
}

/// A call is the subcommand as it stands, and then the region, the profile and
/// the format, each behind its option.
pub proof fn law_calls(profile: Seq<char>, region: Seq<char>, args: Seq<Seq<char>>)
    ensures
        ({
            let call = aws::call_args(profile, region, args);
            let n = args.len() as int;
            &&& call.len() == n + 6
            &&& call.take(n) == args
            &&& call[n] == "--region"@ && call[n + 1] == region
            &&& call[n + 2] == "--profile"@ && call[n + 3] == profile
            &&& call[n + 4] == "--output"@ && call[n + 5] == "json"@
        }),
{
    assert(aws::call_args(profile, region, args).take(args.len() as int) =~= args);
}

/// The reason in an error output is its last line that says something, without
/// the blanks around it: behind it comes nothing but whitespace, and before it on
/// its line neither.
pub proof fn law_reasons_are_last_lines(stderr: Seq<char>) -> (parts: (
    Seq<char>,
    Seq<char>,
    Seq<char>,
))
    ensures
        ({
            let (above, indent, below) = parts;
            let reason = aws::meaningful_line(stderr);
            &&& stderr == above + indent + reason + below
            &&& above.len() > 0 ==> above.last() == '\n'
            &&& strings::all_space(indent) && !indent.contains('\n')
            &&& strings::all_space(below)
            &&& !reason.contains('\n')
            &&& reason.len() > 0 ==> !text::is_space(reason[0]) && !text::is_space(reason.last())
            &&& reason.len() == 0 ==> strings::all_space(stderr)
        }),
{
    let (above, line, below) = lemma_last_line(stderr);
    match text::last_text(text::line_seq(stderr)) {
        Some(x) => {
            let (front, back) = lemma_trimmed_line(x);
            let reason = text::trimmed(x);
            assert(above + x + below == above + (front + reason + back) + below);
            assert(above + (front + reason + back) + below =~= above + front + reason + (back
                + below));
            assert(strings::all_space(back + below)) by {
                assert forall|i: int| 0 <= i < (back + below).len() implies text::is_space(
                    #[trigger] (back + below)[i],
                ) by {
                    if i < back.len() {
                        assert((back + below)[i] == back[i]);
                    } else {
                        assert((back + below)[i] == below[i - back.len()]);
                    }
                }
            }
            (above, front, back + below)
        },
        None => {
            assert(stderr =~= Seq::<char>::empty() + Seq::<char>::empty() + Seq::<char>::empty()
                + stderr);
            (Seq::empty(), Seq::empty(), stderr)
        },
    }
}

proof fn lemma_trimmed_line(x: Seq<char>) -> (cut: (Seq<char>, Seq<char>))
    requires
        !x.contains('\n'),
        !strings::all_space(x),
    ensures
        x == cut.0 + text::trimmed(x) + cut.1,
        strings::all_space(cut.0),
        strings::all_space(cut.1),
        !cut.0.contains('\n'),
        !text::trimmed(x).contains('\n'),
        text::trimmed(x).len() > 0,
        !text::is_space(text::trimmed(x)[0]),
        !text::is_space(text::trimmed(x).last()),
{
    let (front, back) = strings::law_trimming(x);
    let reason = text::trimmed(x);
    if front.contains('\n') {
        let k = front.index_of('\n');
        assert(x[k] == '\n');
    }
    if reason.contains('\n') {
        let k = reason.index_of('\n');
        assert(x[front.len() + k] == '\n');
    }
    if reason.len() == 0 {
        assert(x =~= front + back);
        assert forall|i: int| 0 <= i < x.len() implies text::is_space(#[trigger] x[i]) by {
            if i < front.len() {
                assert(x[i] == front[i]);
            } else {
                assert(x[i] == back[i - front.len()]);
            }
        }
    }
    (front, back)
}

proof fn lemma_last_line(s: Seq<char>) -> (parts: (Seq<char>, Seq<char>, Seq<char>))
    ensures
        match text::last_text(text::line_seq(s)) {
            Some(x) => {
                &&& s == parts.0 + x + parts.2
                &&& parts.1 == x
                &&& parts.0.len() > 0 ==> parts.0.last() == '\n'
                &&& strings::all_space(parts.2)
                &&& parts.2.len() > 0 ==> parts.2[0] == '\n'
                &&& !x.contains('\n')
                &&& !strings::all_space(x)
            },
            None => strings::all_space(s),
        },
    decreases s.len(),
{
    let pieces = text::line_seq(s);
    if s.len() == 0 {
        strings::law_blank_texts(pieces.last());
        let _ = strings::law_last_text(pieces);
        if text::last_text(pieces) is Some {
            assert(pieces =~= seq![Seq::<char>::empty()]);
            assert(strings::all_space(pieces[0]));
        }
        (s, s, s)
    } else {
        let c = s.last();
        let t = s.drop_last();
        assert(s =~= t.push(c));
        let before = text::line_seq(t);
        let (above, line, below) = lemma_last_line(t);
        let x = before.last();
        strings::law_cutting(t, '\n');
        if c == '\n' {
            assert(pieces.drop_last() =~= before);
            assert(text::is_blank(pieces.last()));
            if text::last_text(before) is Some {
                assert(s =~= above + line + below.push(c));
            }
            (above, line, below.push(c))
        } else {
            let grown = x.push(c);
            assert(pieces =~= before.drop_last().push(grown));
            assert(pieces.drop_last() =~= before.drop_last());
            lemma_end_of_pieces(t);
            if text::is_blank(grown) {
                assert(text::is_blank(x)) by {
                    assert forall|i: int| 0 <= i < x.len() implies text::is_space(
                        #[trigger] x[i],
                    ) by {
                        assert(grown[i] == x[i]);
                    }
                }
                assert(text::is_space(c)) by {
                    assert(grown[x.len() as int] == c);
                }
                if text::last_text(before) is Some {
                    assert(below.len() > 0) by {
                        if below.len() == 0 {
                            assert(t =~= above + line);
                            lemma_last_piece(above, line);
                        }
                    }
                    assert(s =~= above + line + below.push(c));
                }
                (above, line, below.push(c))
            } else {
                let head = t.take(t.len() - x.len());
                assert(s =~= head + grown + Seq::<char>::empty());
                assert(!x.contains('\n')) by {
                    assert(before[before.len() - 1] == x);
                }
                assert(!grown.contains('\n')) by {
                    if grown.contains('\n') {
                        let k = grown.index_of('\n');
                        assert(x[k] == '\n');
                    }
                }
                (head, grown, Seq::empty())
            }
        }
    }
}

proof fn lemma_end_of_pieces(s: Seq<char>)
    ensures
        ({
            let x = text::line_seq(s).last();
            &&& x.len() <= s.len()
            &&& s == s.take(s.len() - x.len()) + x
            &&& s.len() > x.len() ==> s.take(s.len() - x.len()).last() == '\n'
        }),
    decreases s.len(),
{
    if s.len() == 0 {
        assert(s =~= s.take(0) + text::line_seq(s).last());
    } else {
        let t = s.drop_last();
        lemma_end_of_pieces(t);
        let x = text::line_seq(s).last();
        let y = text::line_seq(t).last();
        if s.last() == '\n' {
            assert(s =~= s.take(s.len() as int) + x);
        } else {
            assert(x =~= y.push(s.last()));
            assert(s.take(s.len() - x.len()) =~= t.take(t.len() - y.len()));
            let head = t.take(t.len() - y.len());
            assert(s =~= t.push(s.last()));
            assert(s =~= (head + y).push(s.last()));
            assert((head + y).push(s.last()) =~= head + x);
        }
    }
}

proof fn lemma_last_piece(above: Seq<char>, line: Seq<char>)
    requires
        above.len() > 0 ==> above.last() == '\n',
        !line.contains('\n'),
    ensures
        text::line_seq(above + line).last() == line,
    decreases line.len(),
{
    if line.len() == 0 {
        assert(above + line =~= above);
    } else {
        let rest = line.drop_last();
        assert(!rest.contains('\n')) by {
            if rest.contains('\n') {
                let k = rest.index_of('\n');
                assert(line[k] == '\n');
            }
        }
        lemma_last_piece(above, rest);
        assert((above + line).drop_last() =~= above + rest);
        assert(line.last() != '\n') by {
            assert(line[line.len() - 1] == line.last());
        }
        assert(line =~= rest.push(line.last()));
    }
}

/// What a run of the tool answers: the document on its standard output where it
/// succeeded and printed one, and otherwise why not, where the tool itself said
/// why in its own words.
pub proof fn law_replies(args: Seq<Seq<char>>, out: CliOutput)
    ensures
        match out {
            CliOutput::NotRun => aws::reply(args, out) == Err::<json::JsonView, Seq<char>>(
                "failed to run the `aws` CLI — is it installed and on PATH?"@,
            ),
            CliOutput::Exited { success, stdout, stderr } => {
                &&& !success ==> aws::reply(args, out) == Err::<json::JsonView, Seq<char>>(
                    "aws "@ + text::joined(args, " "@) + ": "@ + aws::meaningful_line(
                        aws::lossy_text(stderr@),
                    ),
                )
                &&& success && json::bytes_document(stdout@) is Some ==> aws::reply(args, out)
                    == Ok::<json::JsonView, Seq<char>>(json::bytes_document(stdout@)->0)
                &&& success && json::bytes_document(stdout@) is None ==> aws::reply(args, out)
                    == Err::<json::JsonView, Seq<char>>(
                    "aws returned output that was not valid JSON"@,
                )
            },
        },
{
}

} // verus!
