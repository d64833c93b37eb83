//! Doc comments: which comments are documentation, and the text that they hold.
use crate::data::optional_text;
use crate::syntax::{syntax_models, SyntaxModel, SyntaxNode};
use crate::text::{begins_with, join_lines, text_after, text_begins_with};
use vstd::prelude::*;

verus! {

/// The text without one leading space.
pub open spec fn without_space(s: Seq<char>) -> Seq<char> {
    if begins_with(s, seq![' ']) {
        s.skip(1)
    } else {
        s
    }
}

/// A comment opens documentation if it starts with two quotation marks.
pub open spec fn opens_doc(comment: Seq<char>) -> bool {
    begins_with(comment, seq!['"', '"'])
}

/// What the opening line of a doc comment says: what follows the two quotation marks and the
/// space after them.
pub open spec fn opening_line(comment: Seq<char>) -> Seq<char> {
    without_space(comment.skip(2))
}

/// What a further line of a comment says: what follows the quotation mark and the space after it.
pub open spec fn further_line(comment: Seq<char>) -> Seq<char> {
    if begins_with(comment, seq!['"']) {
        without_space(comment.skip(1))
    } else {
        comment
    }
}

/// The lines of documentation in a block of comments. An opening line that says nothing is no
/// line of its own.
pub open spec fn doc_lines(comments: Seq<Seq<char>>) -> Seq<Seq<char>> {
    let rest = comments.skip(1).map_values(|c: Seq<char>| further_line(c));
    if opening_line(comments[0]).len() == 0 {
        rest
    } else {
        seq![opening_line(comments[0])] + rest
    }
}

/// The documentation in a block of comments, if the block is a doc comment.
pub open spec fn doc_text(comments: Seq<Seq<char>>) -> Option<Seq<char>> {
    if comments.len() > 0 && opens_doc(comments[0]) {
        Some(join_lines(doc_lines(comments)))
    } else {
        None
    }
}

/// The source text of each node.
pub open spec fn source_texts(nodes: Seq<SyntaxModel>) -> Seq<Seq<char>> {
    nodes.map_values(|n: SyntaxModel| n.text)
}

fn strip_space(s: String) -> (r: String)
    ensures
        r@ == without_space(s@),
{
    proof {
        reveal_strlit(" ");
        assert(" "@ =~= seq![' ']);
    }
    if text_begins_with(&s, " ") {
        text_after(s.as_str(), 1)
    } else {
        s
    }
}

fn read_opening_line(comment: &String) -> (r: String)
    requires
        opens_doc(comment@),
    ensures
        r@ == opening_line(comment@),
{
    strip_space(text_after(comment.as_str(), 2))
}

fn read_further_line(comment: &String) -> (r: String)
    ensures
        r@ == further_line(comment@),
{
    proof {
        reveal_strlit("\"");
        assert("\""@ =~= seq!['"']);
    }
    if text_begins_with(comment, "\"") {
        strip_space(text_after(comment.as_str(), 1))
    } else {
        comment.clone()
    }
}

proof fn lemma_join_push(lines: Seq<Seq<char>>, line: Seq<char>)
    ensures
        join_lines(lines.push(line)) == if lines.len() == 0 {
            line
        } else {
            join_lines(lines) + seq!['\n'] + line
        },
{
    assert(lines.push(line).drop_last() =~= lines);
}

/// Reads the documentation in the comments from index `start` up to, and not including, `end`.
pub fn read_doc(nodes: &Vec<SyntaxNode>, start: usize, end: usize) -> (r: Option<String>)
    requires
        start <= end <= nodes@.len(),
    ensures
        optional_text(r) == doc_text(
            source_texts(syntax_models(nodes@).subrange(start as int, end as int)),
        ),
{
    let ghost comments = source_texts(syntax_models(nodes@).subrange(start as int, end as int));
    proof {
        reveal_strlit("\"\"");
        assert("\"\""@ =~= seq!['"', '"']);
        reveal_strlit("\n");
        assert("\n"@ =~= seq!['\n']);
    }
    if start >= end || !text_begins_with(&nodes[start].text, "\"\"") {
        return None;
    }
    let opening: String = read_opening_line(&nodes[start].text);
    let mut empty: bool = opening.as_str().is_empty();
    let mut doc: String = opening;
    let mut i: usize = start + 1;
    let ghost rest = comments.skip(1).map_values(|c: Seq<char>| further_line(c));
    let ghost mut lines: Seq<Seq<char>> = if empty {
        Seq::empty()
    } else {
        seq![doc@]
    };
    proof {
        assert(comments[0] == nodes@[start as int].text@);
        assert(lines + rest.take(0) =~= lines);
    }
    while i < end
        invariant
            start < i <= end <= nodes@.len(),
            comments == source_texts(syntax_models(nodes@).subrange(start as int, end as int)),
            rest == comments.skip(1).map_values(|c: Seq<char>| further_line(c)),
            lines == (if opening_line(comments[0]).len() == 0 {
                Seq::<Seq<char>>::empty()
            } else {
                seq![opening_line(comments[0])]
            }) + rest.take(i - start - 1),
            empty == (lines.len() == 0),
            doc@ == join_lines(lines),
            "\n"@ == seq!['\n'],
        decreases end - i,
    {
        let line: String = read_further_line(&nodes[i].text);
        proof {
            lemma_join_push(lines, line@);
            assert(comments[i - start] == nodes@[i as int].text@);
            assert(rest.take(i - start) =~= rest.take(i - start - 1).push(line@));
            lines = lines.push(line@);
        }
        if empty {
            doc = line;
            empty = false;
        } else {
            doc.append("\n");
            doc.append(line.as_str());
        }
        i += 1;
    }
    proof {
        assert(rest.take(end - start - 1) =~= rest);
        assert(lines =~= doc_lines(comments));
    }
    Some(doc)
}

/// A line of text as a further line of a comment.
pub open spec fn commented(line: Seq<char>) -> Seq<char> {
    seq!['"', ' '] + line
}

/// Lines that are written as comments below an opening line of just two quotation marks are read
/// back as they were.
pub proof fn law_doc_read_back(lines: Seq<Seq<char>>)
    ensures
        doc_text(
            seq![seq!['"', '"']] + lines.map_values(|line: Seq<char>| commented(line)),
        ) == Some(join_lines(lines)),
{
    let comments = seq![seq!['"', '"']] + lines.map_values(|line: Seq<char>| commented(line));
    assert(comments[0].take(2) =~= seq!['"', '"']);
    assert(comments[0].skip(2) =~= Seq::<char>::empty());
    assert forall|i: int| 0 <= i < lines.len() implies further_line(
        #[trigger] comments.skip(1)[i],
    ) == lines[i] by {
        lemma_further_line(lines[i]);
    }
    assert(doc_lines(comments) =~= lines);
}

/// Lines of which the first, which is not empty, is written behind two quotation marks and a
/// space, and the others as comments below it, are read back as they were.
pub proof fn law_doc_read_back_from_opening_line(first: Seq<char>, rest: Seq<Seq<char>>)
    requires
        first.len() > 0,
    ensures
        doc_text(
            seq![seq!['"', '"', ' '] + first] + rest.map_values(
                |line: Seq<char>| commented(line),
            ),
        ) == Some(join_lines(seq![first] + rest)),
{
    let comments = seq![seq!['"', '"', ' '] + first] + rest.map_values(
        |line: Seq<char>| commented(line),
    );
    assert(comments[0].take(2) =~= seq!['"', '"']);
    assert(comments[0].skip(2).take(1) =~= seq![' ']);
    assert(comments[0].skip(2).skip(1) =~= first);
    assert forall|i: int| 0 <= i < rest.len() implies further_line(#[trigger] comments.skip(1)[i])
        == rest[i] by {
        lemma_further_line(rest[i]);
    }
    assert(doc_lines(comments) =~= seq![first] + rest);
}

proof fn lemma_further_line(line: Seq<char>)
    ensures
        further_line(commented(line)) == line,
{
    assert(commented(line).take(1) =~= seq!['"']);
    assert(commented(line).skip(1).take(1) =~= seq![' ']);
    assert(commented(line).skip(1).skip(1) =~= line);
}

/// Whether what follows the quotation marks of a comment says this line: it is the line behind one
/// space, or the line itself where that does not start with a space.
pub open spec fn says(tail: Seq<char>, line: Seq<char>) -> bool {
    ||| tail == seq![' '] + line
    ||| tail == line && (line.len() == 0 || line[0] != ' ')
}

proof fn lemma_says(tail: Seq<char>, line: Seq<char>)
    requires
        says(tail, line),
    ensures
        without_space(tail) == line,
{
    if tail == seq![' '] + line {
        assert(tail.take(1) =~= seq![' ']);
        assert(tail.skip(1) =~= line);
    } else if tail.len() > 0 {
        assert(tail.take(1)[0] == tail[0]);
    }
}

/// The documentation in a block of comments of which the first starts with two quotation marks is
/// what the comments say, line by line. The first line counts only if it says something.
pub proof fn law_doc_of_a_block(
    comments: Seq<Seq<char>>,
    first: Seq<char>,
    rest: Seq<Seq<char>>,
)
    requires
        comments.len() == rest.len() + 1,
        comments[0].len() >= 2 && comments[0][0] == '"' && comments[0][1] == '"',
        says(comments[0].skip(2), first),
        forall|i: int|
            0 <= i < rest.len() ==> {
                let comment = comments[i + 1];
                if comment.len() > 0 && comment[0] == '"' {
                    says(comment.skip(1), #[trigger] rest[i])
                } else {
                    comment == rest[i]
                }
            },
    ensures
        doc_text(comments) == Some(
            join_lines(
                if first.len() == 0 {
                    rest
                } else {
                    seq![first] + rest
                },
            ),
        ),
{
    assert(comments[0].take(2) =~= seq!['"', '"']);
    lemma_says(comments[0].skip(2), first);
    assert forall|i: int| 0 <= i < rest.len() implies further_line(#[trigger] comments.skip(1)[i])
        == rest[i] by {
        let comment = comments[i + 1];
        assert(comments.skip(1)[i] == comment);
        assert(rest[i] == rest[i]);
        if comment.len() > 0 {
            assert(comment.take(1)[0] == comment[0]);
            if comment[0] == '"' {
                assert(comment.take(1) =~= seq!['"']);
                lemma_says(comment.skip(1), rest[i]);
            }
        }
    }
    assert(comments.skip(1).map_values(|c: Seq<char>| further_line(c)) =~= rest);
}

/// Comments of which the first does not start with two quotation marks hold no documentation.
pub proof fn law_no_doc(comments: Seq<Seq<char>>)
    requires
        comments.len() == 0 || comments[0].len() < 2 || comments[0][0] != '"' || comments[0][1]
            != '"',
    ensures
        doc_text(comments) is None,
{
    if comments.len() > 0 && comments[0].len() >= 2 {
        assert(comments[0].take(2)[0] == comments[0][0]);
        assert(comments[0].take(2)[1] == comments[0][1]);
    }
}

/// The source texts of nodes are their texts, in their order.
pub proof fn law_source_texts(nodes: Seq<SyntaxModel>)
    ensures
        source_texts(nodes).len() == nodes.len(),
        forall|i: int| 0 <= i < nodes.len() ==> source_texts(nodes)[i] == (#[trigger] nodes[i]).text,
{
}

} // verus!
