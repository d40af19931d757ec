//! Text helpers: Unicode white space, trimming, and markup escaping.
use vstd::prelude::*;

verus! {

/// A character of the Unicode `White_Space` property.
pub open spec fn is_white_space(c: char) -> bool {
    ||| '\u{9}' <= c <= '\u{d}'
    ||| c == ' '
    ||| c == '\u{85}'
    ||| c == '\u{a0}'
    ||| c == '\u{1680}'
    ||| '\u{2000}' <= c <= '\u{200a}'
    ||| c == '\u{2028}'
    ||| c == '\u{2029}'
    ||| c == '\u{202f}'
    ||| c == '\u{205f}'
    ||| c == '\u{3000}'
}

/// The text without its leading and trailing white space.
pub open spec fn trimmed(s: Seq<char>) -> Seq<char>
    decreases s.len(),
{
    if s.len() == 0 {
        s
    } else if is_white_space(s[0]) {
        trimmed(s.drop_first())
    } else if is_white_space(s.last()) {
        trimmed(s.drop_last())
    } else {
        s
    }
}

/// `str::trim`: the text without its leading and trailing white space, as
/// Unicode's `White_Space` property defines it.
#[verifier::external_body]
pub(crate) fn trim(s: &str) -> (r: &str)
    ensures
        r@ == trimmed(s@),
{
    s.trim()
}

/// `String::push`: appends one character.
#[verifier::external_body]
pub(crate) fn push_char(s: &mut String, c: char)
    ensures
        final(s)@ == old(s)@.push(c),
{
    s.push(c)
}

/// The markup text of a character: an ampersand becomes `&amp;`.
pub open spec fn escaped_char(c: char) -> Seq<char> {
    if c == '&' {
        seq!['&', 'a', 'm', 'p', ';']
    } else {
        seq![c]
    }
}

/// The text with every ampersand replaced by `&amp;`.
pub open spec fn escaped(s: Seq<char>) -> Seq<char>
    decreases s.len(),
{
    if s.len() == 0 {
        Seq::empty()
    } else {
        escaped(s.drop_last()) + escaped_char(s.last())
    }
}

/// The number of ampersands in a text.
pub open spec fn ampersands(s: Seq<char>) -> nat
    decreases s.len(),
{
    if s.len() == 0 {
        0
    } else {
        ampersands(s.drop_last()) + if s.last() == '&' {
            1nat
        } else {
            0nat
        }
    }
}

/// Escaping leaves a text without ampersands as it is, and lengthens a text
/// by four characters for each ampersand in it.
pub proof fn lemma_escaped_len(s: Seq<char>)
    ensures
        escaped(s).len() == s.len() + 4 * ampersands(s),
        ampersands(s) == 0 ==> escaped(s) == s,
    decreases s.len(),
{
    if s.len() > 0 {
        lemma_escaped_len(s.drop_last());
        if ampersands(s) == 0 {
            assert(escaped(s.drop_last()) == s.drop_last());
            assert(escaped(s) =~= s);
        }
    }
}

/// Escapes a text for Pango markup: every `&` becomes `&amp;`; nothing else changes.
pub fn escape_markup(input: &str) -> (r: String)
    ensures
        r@ == escaped(input@),
{
    let mut out = String::new();
    for c in it: input.chars()
        invariant
            it.seq() == input@,
            out@ == escaped(input@.take(it.index() as int)),
    {
        proof {
            let k = it.index() as int;
            assert(input@.take(k + 1).drop_last() =~= input@.take(k));
            assert(input@.take(k + 1).last() == c);
        }
        if c == '&' {
            push_char(&mut out, '&');
            push_char(&mut out, 'a');
            push_char(&mut out, 'm');
            push_char(&mut out, 'p');
            push_char(&mut out, ';');
        } else {
            push_char(&mut out, c);
        }
        assert(out@ =~= escaped(input@.take(it.index() + 1)));
    }
    assert(input@.take(input@.len() as int) =~= input@);
    out
}

} // verus!
