//! String literals of Vim script.
use crate::data::optional_text;
use vstd::prelude::*;

verus! {

/// What a literal string says between its single quotation marks: two of them stand for one.
pub open spec fn unquote_single(s: Seq<char>) -> Seq<char>
    decreases s.len(),
{
    if s.len() == 0 {
        s
    } else if s.len() >= 2 && s[0] == '\'' && s[1] == '\'' {
        seq!['\''] + unquote_single(s.skip(2))
    } else {
        seq![s[0]] + unquote_single(s.skip(1))
    }
}

/// The character that a backslash and `c` stand for.
pub open spec fn escaped(c: char) -> char {
    if c == 'n' {
        '\n'
    } else if c == 't' {
        '\t'
    } else if c == 'r' {
        '\r'
    } else if c == 'e' {
        '\x1b'
    } else if c == 'b' {
        '\x08'
    } else if c == 'f' {
        '\x0c'
    } else {
        c
    }
}

/// What a string says between its double quotation marks: a backslash and the character after it
/// stand for one character.
pub open spec fn unquote_double(s: Seq<char>) -> Seq<char>
    decreases s.len(),
{
    if s.len() == 0 {
        s
    } else if s.len() >= 2 && s[0] == '\\' {
        seq![escaped(s[1])] + unquote_double(s.skip(2))
    } else {
        seq![s[0]] + unquote_double(s.skip(1))
    }
}

/// What a string literal says, or `None` if the text is no literal.
pub open spec fn unquote(literal: Seq<char>) -> Option<Seq<char>> {
    let inner = literal.subrange(1, literal.len() - 1);
    if literal.len() < 2 || literal[0] != literal.last() {
        None
    } else if literal[0] == '\'' {
        Some(unquote_single(inner))
    } else if literal[0] == '"' {
        Some(unquote_double(inner))
    } else {
        None
    }
}

/// Appends the character at index `i` of `s`.
fn append_char(out: &mut String, s: &str, i: usize)
    requires
        i < s@.len() <= usize::MAX,
    ensures
        final(out)@ == old(out)@.push(s@[i as int]),
{
    let one = s.substring_char(i, i + 1);
    proof {
        assert(one@ =~= seq![s@[i as int]]);
    }
    out.append(one);
    proof {
        assert(out@ =~= old(out)@.push(s@[i as int]));
    }
}

/// Appends what the backslash at index `i - 1` of `s` and the character after it stand for.
fn append_escaped(out: &mut String, s: &str, i: usize)
    requires
        i < s@.len() <= usize::MAX,
    ensures
        final(out)@ == old(out)@.push(escaped(s@[i as int])),
{
    let c: char = s.get_char(i);
    proof {
        reveal_strlit("\n");
        reveal_strlit("\t");
        reveal_strlit("\r");
        reveal_strlit("\x1b");
        reveal_strlit("\x08");
        reveal_strlit("\x0c");
    }
    if c == 'n' {
        out.append("\n");
    } else if c == 't' {
        out.append("\t");
    } else if c == 'r' {
        out.append("\r");
    } else if c == 'e' {
        out.append("\x1b");
    } else if c == 'b' {
        out.append("\x08");
    } else if c == 'f' {
        out.append("\x0c");
    } else {
        append_char(out, s, i);
    }
    proof {
        assert(out@ =~= old(out)@.push(escaped(c)));
    }
}

fn read_single(s: &str) -> (r: String)
    ensures
        r@ == unquote_single(s@),
{
    let len: usize = s.unicode_len();
    let mut r: String = String::new();
    let mut i: usize = 0;
    proof {
        assert(s@.skip(0) =~= s@);
        assert(r@ + unquote_single(s@) =~= unquote_single(s@));
    }
    while i < len
        invariant
            i <= len == s@.len(),
            r@ + unquote_single(s@.skip(i as int)) == unquote_single(s@),
        decreases len - i,
    {
        let ghost rest = s@.skip(i as int);
        let ghost before = r@;
        let doubled: bool = len - i >= 2 && s.get_char(i) == '\'' && s.get_char(i + 1) == '\'';
        append_char(&mut r, s, i);
        proof {
            assert(rest.skip(1) =~= s@.skip(i + 1));
            if doubled {
                assert(rest.skip(2) =~= s@.skip(i + 2));
            }
            let tail = if doubled { s@.skip(i + 2) } else { s@.skip(i + 1) };
            assert(unquote_single(rest) == seq![s@[i as int]] + unquote_single(tail));
            assert(before + unquote_single(rest) =~= r@ + unquote_single(tail));
        }
        i = if doubled { i + 2 } else { i + 1 };
    }
    proof {
        assert(s@.skip(len as int) =~= Seq::<char>::empty());
        assert(r@ + Seq::<char>::empty() =~= r@);
    }
    r
}

fn read_double(s: &str) -> (r: String)
    ensures
        r@ == unquote_double(s@),
{
    let len: usize = s.unicode_len();
    let mut r: String = String::new();
    let mut i: usize = 0;
    proof {
        assert(s@.skip(0) =~= s@);
        assert(r@ + unquote_double(s@) =~= unquote_double(s@));
    }
    while i < len
        invariant
            i <= len == s@.len(),
            r@ + unquote_double(s@.skip(i as int)) == unquote_double(s@),
        decreases len - i,
    {
        let ghost rest = s@.skip(i as int);
        let ghost before = r@;
        if len - i >= 2 && s.get_char(i) == '\\' {
            append_escaped(&mut r, s, i + 1);
            proof {
                assert(rest.skip(2) =~= s@.skip(i + 2));
                assert(before + unquote_double(rest) =~= r@ + unquote_double(s@.skip(i + 2)));
            }
            i += 2;
        } else {
            append_char(&mut r, s, i);
            proof {
                assert(rest.skip(1) =~= s@.skip(i + 1));
                assert(before + unquote_double(rest) =~= r@ + unquote_double(s@.skip(i + 1)));
            }
            i += 1;
        }
    }
    proof {
        assert(s@.skip(len as int) =~= Seq::<char>::empty());
        assert(r@ + Seq::<char>::empty() =~= r@);
    }
    r
}

/// Reads a string literal.
pub fn read_literal(literal: &str) -> (r: Option<String>)
    ensures
        optional_text(r) == unquote(literal@),
{
    let len: usize = literal.unicode_len();
    if len < 2 {
        return None;
    }
    let quote: char = literal.get_char(0);
    if quote != literal.get_char(len - 1) {
        return None;
    }
    let inner = literal.substring_char(1, len - 1);
    if quote == '\'' {
        Some(read_single(inner))
    } else if quote == '"' {
        Some(read_double(inner))
    } else {
        None
    }
}

/// The text between the single quotation marks of a literal that says `s`.
pub open spec fn inside_single(s: Seq<char>) -> Seq<char>
    decreases s.len(),
{
    if s.len() == 0 {
        s
    } else if s[0] == '\'' {
        seq!['\'', '\''] + inside_single(s.skip(1))
    } else {
        seq![s[0]] + inside_single(s.skip(1))
    }
}

/// The text between the double quotation marks of a literal that says `s`.
pub open spec fn inside_double(s: Seq<char>) -> Seq<char>
    decreases s.len(),
{
    if s.len() == 0 {
        s
    } else if s[0] == '"' || s[0] == '\\' {
        seq!['\\', s[0]] + inside_double(s.skip(1))
    } else {
        seq![s[0]] + inside_double(s.skip(1))
    }
}

proof fn lemma_inside_single(s: Seq<char>)
    ensures
        unquote_single(inside_single(s)) == s,
    decreases s.len(),
{
    if s.len() > 0 {
        let inner = inside_single(s);
        let tail = inside_single(s.skip(1));
        lemma_inside_single(s.skip(1));
        if s[0] == '\'' {
            assert(inner.skip(2) =~= tail);
        } else {
            assert(inner.skip(1) =~= tail);
        }
        assert(unquote_single(inner) == seq![s[0]] + unquote_single(tail));
        assert(seq![s[0]] + s.skip(1) =~= s);
    }
}

proof fn lemma_inside_double(s: Seq<char>)
    ensures
        unquote_double(inside_double(s)) == s,
    decreases s.len(),
{
    if s.len() > 0 {
        let inner = inside_double(s);
        let tail = inside_double(s.skip(1));
        lemma_inside_double(s.skip(1));
        if s[0] == '"' || s[0] == '\\' {
            assert(inner.skip(2) =~= tail);
        } else {
            assert(inner.skip(1) =~= tail);
        }
        assert(unquote_double(inner) == seq![s[0]] + unquote_double(tail));
        assert(seq![s[0]] + s.skip(1) =~= s);
    }
}

/// Any text can be written as a literal with single quotation marks and is read back from it.
pub proof fn law_single_read_back(s: Seq<char>)
    ensures
        unquote(seq!['\''] + inside_single(s) + seq!['\'']) == Some(s),
{
    let literal = seq!['\''] + inside_single(s) + seq!['\''];
    assert(literal.subrange(1, literal.len() - 1) =~= inside_single(s));
    lemma_inside_single(s);
}

/// Any text can be written as a literal with double quotation marks and is read back from it.
pub proof fn law_double_read_back(s: Seq<char>)
    ensures
        unquote(seq!['"'] + inside_double(s) + seq!['"']) == Some(s),
{
    let literal = seq!['"'] + inside_double(s) + seq!['"'];
    assert(literal.subrange(1, literal.len() - 1) =~= inside_double(s));
    lemma_inside_double(s);
}

/// Whether a backslash and `c` stand for the character `meaning`.
pub open spec fn stands_for(c: char, meaning: char) -> bool {
    match c {
        'n' => meaning == '\n',
        't' => meaning == '\t',
        'r' => meaning == '\r',
        'e' => meaning == '\x1b',
        'b' => meaning == '\x08',
        'f' => meaning == '\x0c',
        _ => meaning == c,
    }
}

proof fn lemma_double_pieces(pieces: Seq<Seq<char>>, meanings: Seq<char>, tail: Seq<char>)
    requires
        pieces.len() == meanings.len(),
        forall|i: int|
            0 <= i < pieces.len() ==> {
                ||| #[trigger] pieces[i] == seq![meanings[i]] && meanings[i] != '\\'
                ||| pieces[i].len() == 2 && pieces[i][0] == '\\' && stands_for(
                    pieces[i][1],
                    meanings[i],
                )
            },
        tail.len() == 0 || tail == seq!['\\'],
    ensures
        unquote_double(pieces.flatten() + tail) == meanings + tail,
    decreases pieces.len(),
{
    if pieces.len() == 0 {
        assert(pieces.flatten() + tail =~= tail);
        assert(meanings + tail =~= tail);
        if tail.len() > 0 {
            assert(tail.skip(1) =~= Seq::<char>::empty());
            assert(unquote_double(tail.skip(1)).len() == 0);
            assert(unquote_double(tail) =~= tail);
        }
    } else {
        let rest = pieces.drop_first();
        let rest_meanings = meanings.drop_first();
        let inner = pieces.flatten() + tail;
        assert forall|i: int| 0 <= i < rest.len() implies {
            ||| #[trigger] rest[i] == seq![rest_meanings[i]] && rest_meanings[i] != '\\'
            ||| rest[i].len() == 2 && rest[i][0] == '\\' && stands_for(rest[i][1], rest_meanings[i])
        } by {
            assert(rest[i] == pieces[i + 1]);
        }
        lemma_double_pieces(rest, rest_meanings, tail);
        let piece = pieces[0];
        assert(inner =~= piece + (rest.flatten() + tail));
        assert(inner.skip(piece.len() as int) =~= rest.flatten() + tail);
        assert(inner[0] == piece[0]);
        if piece.len() == 2 {
            assert(inner[1] == piece[1]);
        }
        assert(unquote_double(inner) == seq![meanings[0]] + unquote_double(rest.flatten() + tail));
        assert(seq![meanings[0]] + (rest_meanings + tail) =~= meanings + tail);
    }
}

/// A string in double quotation marks says what its pieces say, one after the other: a character
/// that is no backslash says itself, and a backslash and the character after it say what they stand
/// for. A backslash with nothing after it says itself.
pub proof fn law_double_quotes(pieces: Seq<Seq<char>>, meanings: Seq<char>, tail: Seq<char>)
    requires
        pieces.len() == meanings.len(),
        forall|i: int|
            0 <= i < pieces.len() ==> {
                ||| #[trigger] pieces[i] == seq![meanings[i]] && meanings[i] != '\\'
                ||| pieces[i].len() == 2 && pieces[i][0] == '\\' && stands_for(
                    pieces[i][1],
                    meanings[i],
                )
            },
        tail.len() == 0 || tail == seq!['\\'],
    ensures
        unquote(seq!['"'] + pieces.flatten() + tail + seq!['"']) == Some(meanings + tail),
{
    let literal = seq!['"'] + pieces.flatten() + tail + seq!['"'];
    lemma_double_pieces(pieces, meanings, tail);
    assert(literal.subrange(1, literal.len() - 1) =~= pieces.flatten() + tail);
}

/// Whether piece `i` of a string in single quotation marks says this character: two quotation marks
/// say one, and any other character says itself, as does one quotation mark that none follows.
pub open spec fn piece_says(pieces: Seq<Seq<char>>, i: int, meaning: char) -> bool {
    ||| pieces[i] == seq![meaning] && meaning != '\''
    ||| pieces[i] == seq!['\'', '\''] && meaning == '\''
    ||| pieces[i] == seq!['\''] && meaning == '\'' && (i == pieces.len() - 1 || pieces[i + 1][0]
        != '\'')
}

proof fn lemma_single_pieces(pieces: Seq<Seq<char>>, meanings: Seq<char>)
    requires
        pieces.len() == meanings.len(),
        forall|i: int| 0 <= i < pieces.len() ==> #[trigger] piece_says(pieces, i, meanings[i]),
    ensures
        unquote_single(pieces.flatten()) == meanings,
    decreases pieces.len(),
{
    if pieces.len() == 0 {
        assert(pieces.flatten() =~= meanings);
    } else {
        let rest = pieces.drop_first();
        let rest_meanings = meanings.drop_first();
        let inner = pieces.flatten();
        assert forall|i: int| 0 <= i < rest.len() implies #[trigger] piece_says(
            rest,
            i,
            rest_meanings[i],
        ) by {
            assert(piece_says(pieces, i + 1, meanings[i + 1]));
            assert(rest[i] == pieces[i + 1]);
            if i + 1 < rest.len() {
                assert(rest[i + 1] == pieces[i + 2]);
            }
        }
        lemma_single_pieces(rest, rest_meanings);
        let piece = pieces[0];
        assert(piece_says(pieces, 0, meanings[0]));
        assert(inner =~= piece + rest.flatten());
        assert(inner.skip(piece.len() as int) =~= rest.flatten());
        assert(inner[0] == piece[0]);
        if piece.len() == 2 {
            assert(inner[1] == piece[1]);
        } else if piece[0] == '\'' {
            if rest.len() > 0 {
                assert(piece_says(pieces, 1, meanings[1]));
                assert(rest[0] == pieces[1]);
                assert(rest.flatten() =~= rest[0] + rest.drop_first().flatten());
                assert(inner[1] == rest[0][0]);
            } else {
                assert(rest.flatten() =~= Seq::<char>::empty());
            }
        }
        assert(unquote_single(inner) == seq![meanings[0]] + unquote_single(rest.flatten()));
        assert(seq![meanings[0]] + rest_meanings =~= meanings);
    }
}

/// A string in single quotation marks says what its pieces say, one after the other.
pub proof fn law_single_quotes(pieces: Seq<Seq<char>>, meanings: Seq<char>)
    requires
        pieces.len() == meanings.len(),
        forall|i: int| 0 <= i < pieces.len() ==> #[trigger] piece_says(pieces, i, meanings[i]),
    ensures
        unquote(seq!['\''] + pieces.flatten() + seq!['\'']) == Some(meanings),
{
    let literal = seq!['\''] + pieces.flatten() + seq!['\''];
    lemma_single_pieces(pieces, meanings);
    assert(literal.subrange(1, literal.len() - 1) =~= pieces.flatten());
}

/// A text that does not start and end with the same quotation mark is no literal, nor is one
/// quotation mark.
pub proof fn law_no_literal(text: Seq<char>)
    requires
        text.len() < 2 || text[0] != text[text.len() - 1] || (text[0] != '\'' && text[0] != '"'),
    ensures
        unquote(text) is None,
{
}

} // verus!
