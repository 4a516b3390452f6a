//! Characters, character classes and the pieces of text that the tokenizer
//! cuts out of its input.

use vstd::prelude::*;
use vstd::std_specs::iter::IteratorSpec;

verus! {

/// Whether `c` is alphabetic in the sense of Unicode (`Alphabetic`).
pub uninterp spec fn alphabetic(c: char) -> bool;

/// Whether `c` is a letter or a number in the sense of Unicode.
pub uninterp spec fn alphanumeric(c: char) -> bool;

/// Whether `c` is white space in the sense of Unicode (`White_Space`).
pub uninterp spec fn white_space(c: char) -> bool;

/// `char::is_alphabetic` of the standard library. Its answer depends on the
/// character alone and is read from Unicode tables; the contract only gives
/// that answer the name `alphabetic`.
pub assume_specification[ char::is_alphabetic ](c: char) -> (r: bool)
    ensures
        r == alphabetic(c),
;

/// `char::is_alphanumeric` of the standard library. Its answer depends on the
/// character alone; the contract only gives it the name `alphanumeric`.
pub assume_specification[ char::is_alphanumeric ](c: char) -> (r: bool)
    ensures
        r == alphanumeric(c),
;

/// `char::is_whitespace` of the standard library. Its answer depends on the
/// character alone; the contract only gives it the name `white_space`.
pub assume_specification[ char::is_whitespace ](c: char) -> (r: bool)
    ensures
        r == white_space(c),
;

/// `String::push` of the standard library appends one character to the
/// string and changes nothing else.
pub assume_specification[ String::push ](s: &mut String, c: char)
    ensures
        final(s)@ == old(s)@.push(c),
;

/// The four characters that separate tokens: space, tab, carriage return and
/// newline.
pub open spec fn is_blank(c: char) -> bool {
    c == ' ' || c == '\t' || c == '\r' || c == '\n'
}

/// The sets of characters that the tokenizer scans runs of.
#[derive(Clone, Copy, Debug)]
pub enum CharClass {
    /// Letters: what may follow the `%` of a keyword.
    Letter,
    /// Letters, numbers and `_`: what an identifier continues with.
    Word,
    /// Everything but a blank and `{`: what pattern text is made of.
    Pattern,
    /// Everything but the one character given.
    Until(char),
}

impl CharClass {
    /// Whether `c` belongs to the class.
    pub open spec fn holds(self, c: char) -> bool {
        match self {
            CharClass::Letter => alphabetic(c),
            CharClass::Word => alphanumeric(c) || c == '_',
            CharClass::Pattern => !is_blank(c) && c != '{',
            CharClass::Until(stop) => c != stop,
        }
    }

    /// Decides membership of `c` in the class.
    pub fn contains(self, c: char) -> (r: bool)
        ensures
            r == self.holds(c),
    {
        match self {
            CharClass::Letter => c.is_alphabetic(),
            CharClass::Word => c.is_alphanumeric() || c == '_',
            CharClass::Pattern => !(c == ' ' || c == '\t' || c == '\r' || c == '\n') && c != '{',
            CharClass::Until(stop) => c != stop,
        }
    }
}

/// The end of the longest run of characters of `class` that starts at `i`:
/// the first position from `i` on that holds a character outside the class,
/// or the end of the text.
pub open spec fn run_end(src: Seq<char>, i: int, class: CharClass) -> int
    decreases src.len() - i,
{
    if 0 <= i < src.len() && class.holds(src[i]) {
        run_end(src, i + 1, class)
    } else {
        i
    }
}

/// `run_end` characterised: it lies between `i` and the end of the text,
/// every character before it is in the class, and the character at it, if
/// there is one, is not.
pub proof fn lemma_run_end(src: Seq<char>, i: int, class: CharClass)
    requires
        0 <= i <= src.len(),
    ensures
        i <= run_end(src, i, class) <= src.len(),
        forall|k: int| i <= k < run_end(src, i, class) ==> class.holds(#[trigger] src[k]),
        run_end(src, i, class) < src.len() ==> !class.holds(src[run_end(src, i, class)]),
    decreases src.len() - i,
{
    if i < src.len() && class.holds(src[i]) {
        lemma_run_end(src, i + 1, class);
    }
}

/// Scans the run of `class` that starts at `i` and returns its end.
pub fn scan_run(src: &Vec<char>, i: usize, class: CharClass) -> (j: usize)
    requires
        i <= src@.len(),
    ensures
        j == run_end(src@, i as int, class),
        i <= j <= src@.len(),
{
    let mut j: usize = i;
    while j < src.len() && class.contains(src[j])
        invariant
            i <= j <= src@.len(),
            run_end(src@, j as int, class) == run_end(src@, i as int, class),
        decreases src@.len() - j,
    {
        j += 1;
    }
    j
}

/// The characters of a string, in order.
pub fn chars_of(s: &str) -> (r: Vec<char>)
    ensures
        r@ == s@,
{
    let mut rest = s.chars();
    let mut out: Vec<char> = Vec::new();
    loop
        invariant
            rest.obeys_prophetic_iter_laws(),
            rest.decrease() is Some,
            out@ + rest.remaining() == s@,
        ensures
            out@ == s@,
        decreases rest.decrease()->0,
    {
        match rest.next() {
            Some(c) => {
                out.push(c);
            },
            None => {
                break ;
            },
        }
    }
    out
}

/// The string made of the characters of `src` from `from` up to `to`.
pub fn string_of(src: &Vec<char>, from: usize, to: usize) -> (r: String)
    requires
        from <= to <= src@.len(),
    ensures
        r@ == src@.subrange(from as int, to as int),
{
    let mut out = String::new();
    let mut i: usize = from;
    while i < to
        invariant
            from <= i <= to <= src@.len(),
            out@ == src@.subrange(from as int, i as int),
        decreases to - i,
    {
        out.push(src[i]);
        i += 1;
    }
    out
}

/// `s` without the white space at its front.
pub open spec fn trim_front(s: Seq<char>) -> Seq<char>
    decreases s.len(),
{
    if s.len() > 0 && white_space(s[0]) {
        trim_front(s.drop_first())
    } else {
        s
    }
}

/// `s` without the white space at its back.
pub open spec fn trim_back(s: Seq<char>) -> Seq<char>
    decreases s.len(),
{
    if s.len() > 0 && white_space(s.last()) {
        trim_back(s.drop_last())
    } else {
        s
    }
}

/// `s` without the white space at either end; white space inside stays.
pub open spec fn trimmed(s: Seq<char>) -> Seq<char> {
    trim_back(trim_front(s))
}

/// The part of `src` between `from` and `to` that is left when the white
/// space at both ends is cut off: the bounds of `trimmed` of that part.
pub fn trim_bounds(src: &Vec<char>, from: usize, to: usize) -> (r: (usize, usize))
    requires
        from <= to <= src@.len(),
    ensures
        from <= r.0 <= r.1 <= to,
        src@.subrange(r.0 as int, r.1 as int) == trimmed(src@.subrange(from as int, to as int)),
{
    let mut a: usize = from;
    while a < to && src[a].is_whitespace()
        invariant
            from <= a <= to <= src@.len(),
            trim_front(src@.subrange(a as int, to as int)) == trim_front(
                src@.subrange(from as int, to as int),
            ),
        decreases to - a,
    {
        assert(src@.subrange(a as int, to as int).drop_first() =~= src@.subrange(
            a as int + 1,
            to as int,
        ));
        a += 1;
    }
    let mut b: usize = to;
    while a < b && src[b - 1].is_whitespace()
        invariant
            a <= b <= to <= src@.len(),
            trim_back(src@.subrange(a as int, b as int)) == trim_back(
                src@.subrange(a as int, to as int),
            ),
        decreases b - a,
    {
        assert(src@.subrange(a as int, b as int).drop_last() =~= src@.subrange(
            a as int,
            b as int - 1,
        ));
        b -= 1;
    }
    (a, b)
}

} // verus!
