//! Scanning of character sequences: character classes, the length of the
//! leading run of a class, the first line of a text and its words.

use vstd::prelude::*;
use vstd::std_specs::iter::IteratorSpec;

verus! {

/// Whether `c` is white space: the code points that Unicode gives the
/// property `White_Space`.
pub open spec fn is_space(c: char) -> bool {
    let u = c as u32;
    ||| 0x09 <= u <= 0x0D
    ||| u == 0x20
    ||| u == 0x85
    ||| u == 0xA0
    ||| u == 0x1680
    ||| 0x2000 <= u <= 0x200A
    ||| u == 0x2028
    ||| u == 0x2029
    ||| u == 0x202F
    ||| u == 0x205F
    ||| u == 0x3000
}

/// Decides `is_space`.
pub fn is_whitespace(c: char) -> (b: bool)
    ensures
        b == is_space(c),
{
    let u: u32 = c as u32;
    (0x09 <= u && u <= 0x0D) || u == 0x20 || u == 0x85 || u == 0xA0 || u == 0x1680 || (0x2000 <= u
        && u <= 0x200A) || u == 0x2028 || u == 0x2029 || u == 0x202F || u == 0x205F || u == 0x3000
}

/// A class of characters that a scan runs over.
#[derive(Clone, Copy, Debug, PartialEq, Eq, Structural)]
pub enum CharClass {
    /// White space.
    Space,
    /// Anything but white space: the characters of a word.
    Word,
    /// Anything but a line feed: the characters of one line.
    Line,
}

impl CharClass {
    /// Whether `c` belongs to the class.
    pub open spec fn has(self, c: char) -> bool {
        match self {
            CharClass::Space => is_space(c),
            CharClass::Word => !is_space(c),
            CharClass::Line => c != '\n',
        }
    }

    /// Decides `has`.
    pub fn contains(self, c: char) -> (b: bool)
        ensures
            b == self.has(c),
    {
        match self {
            CharClass::Space => is_whitespace(c),
            CharClass::Word => !is_whitespace(c),
            CharClass::Line => c != '\n',
        }
    }
}

/// The length of the longest prefix of `s` whose characters all belong to
/// `class`.
pub open spec fn span(s: Seq<char>, class: CharClass) -> nat
    decreases s.len(),
{
    if s.len() > 0 && class.has(s[0]) {
        1 + span(s.drop_first(), class)
    } else {
        0
    }
}

/// `span` is the one `n` such that the first `n` characters belong to the
/// class and the next one, if there is one, does not.
pub proof fn lemma_span_is(s: Seq<char>, class: CharClass, n: nat)
    requires
        n <= s.len(),
        forall|j: int| 0 <= j < n ==> class.has(#[trigger] s[j]),
        n == s.len() || !class.has(s[n as int]),
    ensures
        span(s, class) == n,
    decreases n,
{
    if n > 0 {
        let t = s.drop_first();
        assert forall|j: int| 0 <= j < n - 1 implies class.has(#[trigger] t[j]) by {
            assert(t[j] == s[j + 1]);
        }
        lemma_span_is(t, class, (n - 1) as nat);
    }
}

/// What `span` denotes: it stays within `s`, everything before it belongs to
/// the class, and the character at it, if any, does not.
pub proof fn lemma_span_bounds(s: Seq<char>, class: CharClass)
    ensures
        span(s, class) <= s.len(),
        forall|j: int| 0 <= j < span(s, class) ==> class.has(#[trigger] s[j]),
        span(s, class) < s.len() ==> !class.has(s[span(s, class) as int]),
    decreases s.len(),
{
    if s.len() > 0 && class.has(s[0]) {
        let t = s.drop_first();
        lemma_span_bounds(t, class);
        assert forall|j: int| 0 <= j < span(s, class) implies class.has(#[trigger] s[j]) by {
            if j > 0 {
                assert(s[j] == t[j - 1]);
            }
        }
    }
}

/// The first line of `text`: what stands before its first line feed, and
/// all of it where there is none. A carriage return before the line feed
/// stays; it is white space.
pub open spec fn first_line(text: Seq<char>) -> Seq<char> {
    text.take(span(text, CharClass::Line) as int)
}

/// `s` without its leading white space.
pub open spec fn trim_start(s: Seq<char>) -> Seq<char> {
    s.skip(span(s, CharClass::Space) as int)
}

/// The first word of `s`: the longest run of characters other than white
/// space that starts at the first such character. It is empty where `s`
/// holds white space only.
pub open spec fn first_word(s: Seq<char>) -> Seq<char> {
    trim_start(s).take(span(trim_start(s), CharClass::Word) as int)
}

/// What follows the first word of `s`.
pub open spec fn after_first_word(s: Seq<char>) -> Seq<char> {
    trim_start(s).skip(span(trim_start(s), CharClass::Word) as int)
}

/// The word of `s` with index `k`, counted from zero; empty where `s` has
/// `k` words or fewer.
pub open spec fn word(s: Seq<char>, k: nat) -> Seq<char>
    decreases k,
{
    if k == 0 {
        first_word(s)
    } else {
        word(after_first_word(s), (k - 1) as nat)
    }
}

/// The end of the run of `class` that starts at `from`.
pub fn scan(line: &Vec<char>, from: usize, class: CharClass) -> (to: usize)
    requires
        from <= line.len(),
    ensures
        to == from + span(line@.skip(from as int), class),
        from <= to <= line.len(),
{
    let mut to: usize = from;
    while to < line.len() && class.contains(line[to])
        invariant
            from <= to <= line.len(),
            forall|j: int| from <= j < to ==> class.has(#[trigger] line@[j]),
        decreases line.len() - to,
    {
        to += 1;
    }
    proof {
        let rest = line@.skip(from as int);
        assert forall|j: int| 0 <= j < to - from implies class.has(#[trigger] rest[j]) by {
            assert(rest[j] == line@[from + j]);
        }
        lemma_span_is(rest, class, (to - from) as nat);
    }
    to
}

/// Finds the first word at or after `from`: where it starts and where it
/// ends. The two are equal where only white space is left.
pub fn next_word(line: &Vec<char>, from: usize) -> (at: (usize, usize))
    requires
        from <= line.len(),
    ensures
        from <= at.0 <= at.1 <= line.len(),
        line@.subrange(at.0 as int, at.1 as int) == first_word(line@.skip(from as int)),
        line@.skip(at.1 as int) == after_first_word(line@.skip(from as int)),
{
    let start = scan(line, from, CharClass::Space);
    let end = scan(line, start, CharClass::Word);
    proof {
        let rest = line@.skip(from as int);
        assert(trim_start(rest) =~= line@.skip(start as int));
        assert(line@.skip(start as int).take(end - start) =~= line@.subrange(
            start as int,
            end as int,
        ));
        assert(line@.skip(start as int).skip(end - start) =~= line@.skip(end as int));
    }
    (start, end)
}

/// The characters of the first line of `text`.
pub fn first_line_chars(text: &str) -> (line: Vec<char>)
    ensures
        line@ == first_line(text@),
{
    let mut line: Vec<char> = Vec::new();
    let mut chars = text.chars();
    let mut open = true;
    broadcast use vstd::string::group_string_axioms;
    while open
        invariant
            line@.len() <= text@.len(),
            open ==> chars.remaining() == text@.skip(line@.len() as int),
            line@ == text@.take(line@.len() as int),
            forall|j: int| 0 <= j < line@.len() ==> CharClass::Line.has(#[trigger] text@[j]),
            !open ==> line@.len() == text@.len() || !CharClass::Line.has(text@[line@.len() as int]),
        decreases text@.len() - line@.len() + if open { 1nat } else { 0nat },
    {
        let ghost before = line@;
        match chars.next() {
            Some(c) => {
                assert(c == text@[before.len() as int]);
                if c == '\n' {
                    open = false;
                } else {
                    line.push(c);
                    assert(chars.remaining() =~= text@.skip(line@.len() as int));
                    assert(line@ =~= text@.take(line@.len() as int));
                }
            },
            None => {
                open = false;
            },
        }
    }
    proof {
        lemma_span_is(text@, CharClass::Line, line@.len());
    }
    line
}

} // verus!
