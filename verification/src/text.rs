//! Building text: decimal numbers, quoted literals and joined lines.

use vstd::prelude::*;

verus! {

/// `String::push` of std: the character is added at the end of the string.
#[verifier::external_body]
pub(crate) fn push_char(out: &mut String, c: char)
    ensures
        final(out)@ == old(out)@.push(c),
{
    out.push(c);
}

/// The character that writes a decimal digit.
pub open spec fn digit_char(d: int) -> char {
    if d == 0 {
        '0'
    } else if d == 1 {
        '1'
    } else if d == 2 {
        '2'
    } else if d == 3 {
        '3'
    } else if d == 4 {
        '4'
    } else if d == 5 {
        '5'
    } else if d == 6 {
        '6'
    } else if d == 7 {
        '7'
    } else if d == 8 {
        '8'
    } else {
        '9'
    }
}

/// The decimal digits of a natural number, most significant first.
pub open spec fn digits(n: nat) -> Seq<char>
    decreases n,
{
    if n < 10 {
        seq![digit_char(n as int)]
    } else {
        digits(n / 10).push(digit_char((n % 10) as int))
    }
}

/// The decimal numeral of an integer, with a minus sign where it is negative.
pub open spec fn decimal(n: int) -> Seq<char> {
    if n < 0 {
        seq!['-'] + digits((-n) as nat)
    } else {
        digits(n as nat)
    }
}

fn digit(d: u64) -> (c: char)
    requires
        d < 10,
    ensures
        c == digit_char(d as int),
{
    if d == 0 {
        '0'
    } else if d == 1 {
        '1'
    } else if d == 2 {
        '2'
    } else if d == 3 {
        '3'
    } else if d == 4 {
        '4'
    } else if d == 5 {
        '5'
    } else if d == 6 {
        '6'
    } else if d == 7 {
        '7'
    } else if d == 8 {
        '8'
    } else {
        '9'
    }
}

fn push_digits(out: &mut String, n: u64)
    ensures
        final(out)@ == old(out)@ + digits(n as nat),
    decreases n,
{
    if n >= 10 {
        push_digits(out, n / 10);
    }
    push_char(out, digit(n % 10));
    assert(out@ =~= old(out)@ + digits(n as nat));
}

/// Writes an unsigned number in decimal.
pub fn decimal_u64(n: u64) -> (text: String)
    ensures
        text@ == decimal(n as int),
{
    let mut text = String::new();
    push_digits(&mut text, n);
    assert(text@ =~= digits(n as nat));
    text
}

/// Writes a signed number in decimal.
pub fn decimal_i64(n: i64) -> (text: String)
    ensures
        text@ == decimal(n as int),
{
    let mut text = String::new();
    if n < 0 {
        push_char(&mut text, '-');
        let magnitude: u64 = if n == i64::MIN {
            9223372036854775808u64
        } else {
            (-n) as u64
        };
        push_digits(&mut text, magnitude);
        assert(text@ =~= seq!['-'] + digits((-n) as nat));
    } else {
        push_digits(&mut text, n as u64);
        assert(text@ =~= digits(n as nat));
    }
    text
}

/// A text with every single quote doubled.
pub open spec fn doubled_quotes(s: Seq<char>) -> Seq<char>
    decreases s.len(),
{
    if s.len() == 0 {
        s
    } else if s.last() == '\'' {
        doubled_quotes(s.drop_last()).push('\'').push('\'')
    } else {
        doubled_quotes(s.drop_last()).push(s.last())
    }
}

/// A text as a quoted literal of the filter language: between single
/// quotes, with each single quote inside written twice.
pub open spec fn quoted(s: Seq<char>) -> Seq<char> {
    seq!['\''] + doubled_quotes(s) + seq!['\'']
}

/// Writes a text as a quoted literal of the filter language.
pub fn quote(s: &str) -> (literal: String)
    ensures
        literal@ == quoted(s@),
{
    let chars = chars_of(s);
    let mut literal = String::new();
    push_char(&mut literal, '\'');
    let mut i: usize = 0;
    assert(literal@ =~= seq!['\''] + doubled_quotes(chars@.take(0)));
    while i < chars.len()
        invariant
            i <= chars.len(),
            literal@ == seq!['\''] + doubled_quotes(chars@.take(i as int)),
        decreases chars.len() - i,
    {
        let c = chars[i];
        proof {
            let prefix = chars@.take(i as int + 1);
            assert(prefix.drop_last() =~= chars@.take(i as int));
            assert(prefix.last() == c);
        }
        if c == '\'' {
            push_char(&mut literal, '\'');
            push_char(&mut literal, '\'');
        } else {
            push_char(&mut literal, c);
        }
        i = i + 1;
        assert(literal@ =~= seq!['\''] + doubled_quotes(chars@.take(i as int)));
    }
    assert(chars@.take(i as int) =~= chars@);
    push_char(&mut literal, '\'');
    assert(literal@ =~= quoted(s@));
    literal
}

/// The characters of a text, in their order.
pub fn chars_of(text: &str) -> (chars: Vec<char>)
    ensures
        chars@ == text@,
{
    let mut chars: Vec<char> = Vec::new();
    for c in it: text.chars()
        invariant
            it.seq() == text@,
            chars@ == it.seq().take(it.index() as int),
    {
        chars.push(c);
        assert(chars@ =~= it.seq().take(it.index() as int + 1));
    }
    assert(chars@ =~= text@);
    chars
}

/// The text that the characters spell.
pub fn string_of(chars: &Vec<char>) -> (text: String)
    ensures
        text@ == chars@,
{
    let mut text = String::new();
    let mut i: usize = 0;
    while i < chars.len()
        invariant
            i <= chars.len(),
            text@ == chars@.take(i as int),
        decreases chars.len() - i,
    {
        push_char(&mut text, chars[i]);
        i = i + 1;
        assert(text@ =~= chars@.take(i as int));
    }
    assert(chars@.take(i as int) =~= chars@);
    text
}

/// Whether a character is white space: one of the code points that
/// Unicode gives the property `White_Space`.
pub open spec fn is_whitespace(c: char) -> bool {
    ||| c == '\u{9}'
    ||| c == '\u{a}'
    ||| c == '\u{b}'
    ||| c == '\u{c}'
    ||| c == '\u{d}'
    ||| c == '\u{20}'
    ||| c == '\u{85}'
    ||| c == '\u{a0}'
    ||| c == '\u{1680}'
    ||| c == '\u{2000}'
    ||| c == '\u{2001}'
    ||| c == '\u{2002}'
    ||| c == '\u{2003}'
    ||| c == '\u{2004}'
    ||| c == '\u{2005}'
    ||| c == '\u{2006}'
    ||| c == '\u{2007}'
    ||| c == '\u{2008}'
    ||| c == '\u{2009}'
    ||| c == '\u{200a}'
    ||| c == '\u{2028}'
    ||| c == '\u{2029}'
    ||| c == '\u{202f}'
    ||| c == '\u{205f}'
    ||| c == '\u{3000}'
}

/// Whether a character is white space.
pub fn is_space(c: char) -> (yes: bool)
    ensures
        yes == is_whitespace(c),
{
    c == '\u{9}' || c == '\u{a}' || c == '\u{b}' || c == '\u{c}' || c == '\u{d}' || c == '\u{20}' || c
        == '\u{85}' || c == '\u{a0}' || c == '\u{1680}' || c == '\u{2000}' || c == '\u{2001}' || c
        == '\u{2002}' || c == '\u{2003}' || c == '\u{2004}' || c == '\u{2005}' || c == '\u{2006}' || c
        == '\u{2007}' || c == '\u{2008}' || c == '\u{2009}' || c == '\u{200a}' || c == '\u{2028}' || c
        == '\u{2029}' || c == '\u{202f}' || c == '\u{205f}' || c == '\u{3000}'
}

/// A text without the white space at its beginning.
pub open spec fn trim_start(s: Seq<char>) -> Seq<char>
    decreases s.len(),
{
    if s.len() > 0 && is_whitespace(s[0]) {
        trim_start(s.drop_first())
    } else {
        s
    }
}

/// A text without the white space at its end.
pub open spec fn trim_end(s: Seq<char>) -> Seq<char>
    decreases s.len(),
{
    if s.len() > 0 && is_whitespace(s.last()) {
        trim_end(s.drop_last())
    } else {
        s
    }
}

/// The texts, one after the other.
pub open spec fn concat(texts: Seq<Seq<char>>) -> Seq<char>
    decreases texts.len(),
{
    if texts.len() == 0 {
        Seq::empty()
    } else {
        concat(texts.drop_last()) + texts.last()
    }
}

/// The lines of a text: what stands between its line feeds. A text has
/// one line more than it has line feeds.
pub open spec fn lines(s: Seq<char>) -> Seq<Seq<char>>
    decreases s.len(),
{
    if s.len() == 0 {
        seq![Seq::empty()]
    } else {
        let before = lines(s.drop_last());
        if s.last() == '\n' {
            before.push(Seq::empty())
        } else {
            before.drop_last().push(before.last().push(s.last()))
        }
    }
}

/// The lines of a text, each without the white space at its end, one
/// after the other with nothing between them.
pub open spec fn trimmed_lines(s: Seq<char>) -> Seq<char> {
    concat(lines(s).map_values(|line: Seq<char>| trim_end(line)))
}

/// There is always a line.
pub proof fn lemma_lines_nonempty(s: Seq<char>)
    ensures
        lines(s).len() > 0,
    decreases s.len(),
{
    if s.len() > 0 {
        lemma_lines_nonempty(s.drop_last());
    }
}

/// Removes the white space at the end of the characters.
pub fn trim_end_in_place(chars: &mut Vec<char>)
    ensures
        final(chars)@ == trim_end(old(chars)@),
{
    while chars.len() > 0 && is_space(chars[chars.len() - 1])
        invariant
            trim_end(chars@) == trim_end(old(chars)@),
        decreases chars.len(),
    {
        let ghost before = chars@;
        chars.pop();
        assert(chars@ =~= before.drop_last());
    }
}

/// Writes the lines of a text, each without the white space at its end,
/// one after the other with nothing between them.
pub fn join_trimmed_lines(text: &str) -> (joined: String)
    ensures
        joined@ == trimmed_lines(text@),
{
    let chars = chars_of(text);
    let ghost trim = |line: Seq<char>| trim_end(line);
    let mut out: Vec<char> = Vec::new();
    let mut line: Vec<char> = Vec::new();
    let mut i: usize = 0;
    proof {
        assert(lines(chars@.take(0)) =~= seq![Seq::<char>::empty()]);
        assert(lines(chars@.take(0)).drop_last().map_values(trim) =~= Seq::<Seq<char>>::empty());
    }
    while i < chars.len()
        invariant
            i <= chars.len(),
            trim == (|line: Seq<char>| trim_end(line)),
            lines(chars@.take(i as int)).len() > 0,
            line@ == lines(chars@.take(i as int)).last(),
            out@ == concat(lines(chars@.take(i as int)).drop_last().map_values(trim)),
        decreases chars.len() - i,
    {
        let c = chars[i];
        proof {
            let seen = chars@.take(i as int + 1);
            assert(seen.drop_last() =~= chars@.take(i as int));
            assert(seen.last() == c);
            lemma_lines_nonempty(seen);
        }
        let ghost before = lines(chars@.take(i as int));
        if c == '\n' {
            trim_end_in_place(&mut line);
            let ghost done = out@;
            out.append(&mut line);
            proof {
                let now = lines(chars@.take(i as int + 1));
                assert(now == before.push(Seq::<char>::empty()));
                assert(now.drop_last() =~= before);
                assert(before.map_values(trim).drop_last() =~= before.drop_last().map_values(trim));
                assert(before.map_values(trim).last() == trim_end(before.last()));
                assert(out@ =~= concat(now.drop_last().map_values(trim)));
                assert(line@ =~= now.last());
            }
        } else {
            line.push(c);
            proof {
                let now = lines(chars@.take(i as int + 1));
                assert(now == before.drop_last().push(before.last().push(c)));
                assert(now.drop_last() =~= before.drop_last());
            }
        }
        i = i + 1;
    }
    assert(chars@.take(i as int) =~= chars@);
    trim_end_in_place(&mut line);
    out.append(&mut line);
    proof {
        let all = lines(chars@);
        assert(all.map_values(trim).drop_last() =~= all.drop_last().map_values(trim));
        assert(all.map_values(trim).last() == trim_end(all.last()));
    }
    string_of(&out)
}

} // verus!
