//! Small functions on text.
use vstd::prelude::*;

verus! {

/// Whether a string holds just this text.
pub fn text_is(s: &String, text: &str) -> (r: bool)
    ensures
        r == (s@ == text@),
{
    *s == text.to_owned()
}

/// Whether a text begins with another one.
pub open spec fn begins_with(s: Seq<char>, prefix: Seq<char>) -> bool {
    s.len() >= prefix.len() && s.take(prefix.len() as int) == prefix
}

/// Whether a text ends with another one.
pub open spec fn ends_with(s: Seq<char>, suffix: Seq<char>) -> bool {
    s.len() >= suffix.len() && s.skip(s.len() - suffix.len()) == suffix
}

/// Whether `s` ends with `suffix`.
pub fn text_ends_with(s: &String, suffix: &str) -> (r: bool)
    ensures
        r == ends_with(s@, suffix@),
{
    let len: usize = s.as_str().unicode_len();
    let suffix_len: usize = suffix.unicode_len();
    if len < suffix_len {
        return false;
    }
    let tail = s.as_str().substring_char(len - suffix_len, len);
    proof {
        assert(tail@ =~= s@.skip(s@.len() - suffix@.len()));
    }
    tail.to_owned() == suffix.to_owned()
}

/// Whether `s` begins with `prefix`.
pub fn text_begins_with(s: &String, prefix: &str) -> (r: bool)
    ensures
        r == begins_with(s@, prefix@),
{
    let len: usize = s.as_str().unicode_len();
    let prefix_len: usize = prefix.unicode_len();
    if len < prefix_len {
        return false;
    }
    let head = s.as_str().substring_char(0, prefix_len);
    proof {
        assert(head@ =~= s@.take(prefix@.len() as int));
    }
    head.to_owned() == prefix.to_owned()
}

/// The text that is left after `n` characters.
pub fn text_after(s: &str, n: usize) -> (r: String)
    requires
        n <= s@.len(),
    ensures
        r@ == s@.skip(n as int),
{
    let tail = s.substring_char(n, s.unicode_len());
    proof {
        assert(tail@ =~= s@.skip(n as int));
    }
    tail.to_owned()
}

/// The lines, one after the other, with a line break between any two.
pub open spec fn join_lines(lines: Seq<Seq<char>>) -> Seq<char>
    decreases lines.len(),
{
    if lines.len() == 0 {
        Seq::empty()
    } else if lines.len() == 1 {
        lines[0]
    } else {
        join_lines(lines.drop_last()) + seq!['\n'] + lines.last()
    }
}

/// The decimal digit of a number below ten.
pub open spec fn digit(n: nat) -> char {
    ('0' as nat + n) as char
}

/// The decimal notation of a number.
pub open spec fn decimal(n: nat) -> Seq<char>
    decreases n,
{
    if n < 10 {
        seq![digit(n)]
    } else {
        decimal(n / 10).push(digit(n % 10))
    }
}

fn digit_text(n: usize) -> (r: &'static str)
    requires
        n < 10,
    ensures
        r@ == seq![digit(n as nat)],
{
    proof {
        reveal_strlit("0");
        reveal_strlit("1");
        reveal_strlit("2");
        reveal_strlit("3");
        reveal_strlit("4");
        reveal_strlit("5");
        reveal_strlit("6");
        reveal_strlit("7");
        reveal_strlit("8");
        reveal_strlit("9");
    }
    match n {
        0 => "0",
        1 => "1",
        2 => "2",
        3 => "3",
        4 => "4",
        5 => "5",
        6 => "6",
        7 => "7",
        8 => "8",
        _ => "9",
    }
}

/// Writes a number in decimal notation.
pub fn decimal_text(n: usize) -> (r: String)
    ensures
        r@ == decimal(n as nat),
    decreases n,
{
    if n < 10 {
        digit_text(n).to_owned()
    } else {
        let mut r: String = decimal_text(n / 10);
        r.append(digit_text(n % 10));
        proof {
            assert(r@ =~= decimal((n / 10) as nat).push(digit((n % 10) as nat)));
        }
        r
    }
}

/// A text begins with another one just if it is that and a rest.
pub proof fn law_begins_with(s: Seq<char>, prefix: Seq<char>, rest: Seq<char>)
    ensures
        begins_with(prefix + rest, prefix),
        begins_with(s, prefix) ==> s == prefix + s.skip(prefix.len() as int),
{
    assert((prefix + rest).take(prefix.len() as int) =~= prefix);
    if begins_with(s, prefix) {
        assert(s =~= s.take(prefix.len() as int) + s.skip(prefix.len() as int));
    }
}

/// A text ends with another one just if it is a stem and that.
pub proof fn law_ends_with(s: Seq<char>, suffix: Seq<char>, stem: Seq<char>)
    ensures
        ends_with(stem + suffix, suffix),
        ends_with(s, suffix) ==> s == s.take(s.len() - suffix.len()) + suffix,
{
    assert((stem + suffix).skip(stem.len() as int) =~= suffix);
    if ends_with(s, suffix) {
        assert(s =~= s.take(s.len() - suffix.len()) + s.skip(s.len() - suffix.len()));
    }
}

/// No lines are no text, one line is itself, and between two parts there is one line break.
pub proof fn law_join_lines(line: Seq<char>, a: Seq<Seq<char>>, b: Seq<Seq<char>>)
    ensures
        join_lines(Seq::<Seq<char>>::empty()) == Seq::<char>::empty(),
        join_lines(seq![line]) == line,
        a.len() > 0 && b.len() > 0 ==> join_lines(a + b) == join_lines(a) + seq!['\n'] + join_lines(
            b,
        ),
    decreases b.len(),
{
    if a.len() > 0 && b.len() > 0 {
        assert((a + b).drop_last() =~= a + b.drop_last());
        if b.len() == 1 {
            assert(a + b.drop_last() =~= a);
        } else {
            law_join_lines(line, a, b.drop_last());
            assert(join_lines(a + b) =~= join_lines(a) + seq!['\n'] + join_lines(b));
        }
    }
}

/// The number that a text of decimal digits stands for.
pub open spec fn number(digits: Seq<char>) -> int
    decreases digits.len(),
{
    if digits.len() == 0 {
        0
    } else {
        10 * number(digits.drop_last()) + (digits.last() as int - '0' as int)
    }
}

/// The decimal notation of a number is made of digits, stands for that number, and has no zero
/// before other digits.
pub proof fn law_decimal(n: nat)
    ensures
        number(decimal(n)) == n,
        decimal(n).len() > 0,
        decimal(n).len() > 1 ==> decimal(n)[0] != '0',
        forall|i: int| 0 <= i < decimal(n).len() ==> '0' <= #[trigger] decimal(n)[i] <= '9',
        n > 0 ==> decimal(n)[0] != '0',
    decreases n,
{
    reveal_with_fuel(number, 2);
    if n >= 10 {
        law_decimal(n / 10);
        assert(decimal(n).drop_last() =~= decimal(n / 10));
        assert(decimal(n)[0] == decimal(n / 10)[0]);
    } else {
        assert(decimal(n).drop_last() =~= Seq::<char>::empty());
    }
}

} // verus!
