//! Assembly of one standalone renderable document: the shared header, the
//! document-body-start sentinel, one fragment's body lines, and the
//! document-body-end sentinel.

use vstd::prelude::*;
use vstd::string::*;

verus! {

/// The lines joined by single newlines: no trailing newline, and an empty
/// sequence of lines joins to the empty text.
pub open spec fn join_lines(ls: Seq<Seq<char>>) -> Seq<char>
    decreases ls.len(),
{
    if ls.len() == 0 {
        Seq::empty()
    } else if ls.len() == 1 {
        ls[0]
    } else {
        join_lines(ls.drop_last()) + seq!['\n'] + ls.last()
    }
}

/// The full text of one standalone document: the header joined by newlines,
/// directly followed by the body-start sentinel, a newline, the body lines
/// joined by newlines, a newline, and the body-end sentinel.
pub open spec fn document_text(header: Seq<Seq<char>>, body: Seq<Seq<char>>) -> Seq<char> {
    join_lines(header) + "\\begin{document}\n"@ + join_lines(body) + "\n\\end{document}"@
}

/// Joins the lines with single newlines.
pub fn join_with_newlines(lines: &Vec<String>) -> (r: String)
    ensures
        r@ == join_lines(lines.deep_view()),
{
    let ghost ls = lines.deep_view();
    let mut out = String::new();
    let n = lines.len();
    let mut i: usize = 0;
    proof {
        assert(out@ =~= join_lines(ls.take(0)));
    }
    while i < n
        invariant
            0 <= i <= n,
            n == ls.len(),
            ls == lines.deep_view(),
            out@ == join_lines(ls.take(i as int)),
        decreases n - i,
    {
        if i > 0 {
            out.append("\n");
        }
        out.append(lines[i].as_str());
        proof {
            reveal_strlit("\n");
            assert(ls.take(i + 1).last() == ls[i as int]);
            assert(ls.take(i + 1).drop_last() =~= ls.take(i as int));
            if i == 0 {
                assert(out@ =~= join_lines(ls.take(1)));
            } else {
                assert("\n"@ =~= seq!['\n']);
                assert(out@ =~= join_lines(ls.take(i as int)) + seq!['\n'] + ls[i as int]);
            }
        }
        i += 1;
    }
    proof {
        assert(ls.take(n as int) =~= ls);
    }
    out
}

/// Builds the text of one standalone document from the shared header and one
/// fragment's body lines.
pub fn assemble_document(header: &Vec<String>, body: &Vec<String>) -> (r: String)
    ensures
        r@ == document_text(header.deep_view(), body.deep_view()),
{
    let mut out = join_with_newlines(header);
    out.append("\\begin{document}\n");
    let body_text = join_with_newlines(body);
    out.append(body_text.as_str());
    out.append("\n\\end{document}");
    proof {
        assert(out@ =~= document_text(header.deep_view(), body.deep_view()));
    }
    out
}

} // verus!
