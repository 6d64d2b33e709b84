//! The grammar of a request head, line by line.
//!
//! A line is a sequence of characters. Every token of the grammar is a
//! longest run of characters of one class, so a line has at most one reading.

use vstd::prelude::*;
use vstd::string::StrSliceExecFns;

use crate::server::request::{lemma_literal_names_version, HTTPVersion};

verus! {

/// Whether `c` is alphanumeric as Unicode defines it: what
/// `char::is_alphanumeric` answers for `c`.
pub uninterp spec fn is_alphanumeric(c: char) -> bool;

/// `char::is_alphanumeric` of std. Nothing is claimed of it but that its
/// answer depends on the character alone.
pub assume_specification[ char::is_alphanumeric ](c: char) -> (b: bool)
    ensures
        b == is_alphanumeric(c),
;

/// The lower-case form of `s` as Unicode defines it: what `str::to_lowercase`
/// returns for a string of these characters.
pub uninterp spec fn lowercase(s: Seq<char>) -> Seq<char>;

/// `str::to_lowercase` of std. Nothing is claimed of it but that its result
/// depends on the characters of the string alone.
pub assume_specification[ str::to_lowercase ](s: &str) -> (lower: String)
    ensures
        lower@ == lowercase(s@),
;

/// The classes of characters that the tokens of a request head are made of.
#[derive(Clone, Copy, Debug, PartialEq, Eq, Structural)]
pub enum CharClass {
    /// `A` to `Z`: a method.
    Upper,
    /// Space or tab: what separates the tokens of a request line.
    Blank,
    /// Anything but a space: a request target.
    NonSpace,
    /// Alphanumeric or `-`: a header name.
    Name,
}

impl CharClass {
    /// Whether `c` belongs to the class.
    pub open spec fn has(self, c: char) -> bool {
        match self {
            CharClass::Upper => 'A' <= c && c <= 'Z',
            CharClass::Blank => c == ' ' || c == '\t',
            CharClass::NonSpace => c != ' ',
            CharClass::Name => is_alphanumeric(c) || c == '-',
        }
    }

    /// Whether `c` belongs to the class.
    pub fn contains(&self, c: char) -> (member: bool)
        ensures
            member == self.has(c),
    {
        match self {
            CharClass::Upper => 'A' <= c && c <= 'Z',
            CharClass::Blank => c == ' ' || c == '\t',
            CharClass::NonSpace => c != ' ',
            CharClass::Name => c.is_alphanumeric() || c == '-',
        }
    }
}

/// Where the longest run of characters of `class` that starts at `from`
/// ends. The run is empty, and the result `from`, where `from` is not the
/// index of a character of the class.
pub open spec fn run_end(s: Seq<char>, from: int, class: CharClass) -> int
    decreases s.len() - from,
{
    if 0 <= from < s.len() && class.has(s[from]) {
        run_end(s, from + 1, class)
    } else {
        from
    }
}

/// What `run_end` is: the one index from `from` on up to which every
/// character is of the class and at which the next one, if any, is not.
pub proof fn lemma_run_end(s: Seq<char>, from: int, class: CharClass)
    requires
        0 <= from <= s.len(),
    ensures
        from <= run_end(s, from, class) <= s.len(),
        forall|i: int| from <= i < run_end(s, from, class) ==> class.has(#[trigger] s[i]),
        run_end(s, from, class) < s.len() ==> !class.has(s[run_end(s, from, class)]),
    decreases s.len() - from,
{
    if from < s.len() && class.has(s[from]) {
        lemma_run_end(s, from + 1, class);
    }
}

/// A run that is closed off at `end` is the longest one.
pub proof fn lemma_run_end_unique(s: Seq<char>, from: int, end: int, class: CharClass)
    requires
        0 <= from <= end <= s.len(),
        forall|i: int| from <= i < end ==> class.has(#[trigger] s[i]),
        end < s.len() ==> !class.has(s[end]),
    ensures
        run_end(s, from, class) == end,
    decreases end - from,
{
    if from < end {
        lemma_run_end_unique(s, from + 1, end, class);
    }
}

/// The characters of a string, one by one.
pub fn to_chars(s: &str) -> (chars: Vec<char>)
    ensures
        chars@ == s@,
{
    let mut chars: Vec<char> = Vec::new();
    for c in it: s.chars()
        invariant
            chars@ == it.seq().take(it.index() as int),
            it.seq() == s@,
    {
        chars.push(c);
    }
    chars
}

/// Scans the longest run of characters of `class` that starts at `from`,
/// and returns where it ends.
pub fn scan(chars: &Vec<char>, from: usize, class: CharClass) -> (end: usize)
    ensures
        end == run_end(chars@, from as int, class),
        from <= end,
        from <= chars.len() ==> end <= chars.len(),
{
    let mut i: usize = from;
    while i < chars.len() && class.contains(chars[i])
        invariant
            from <= i,
            from <= chars.len() ==> i <= chars.len(),
            run_end(chars@, from as int, class) == run_end(chars@, i as int, class),
        decreases chars.len() - i,
    {
        i += 1;
    }
    i
}

/// What a request line says.
pub struct RequestLine {
    pub method: Seq<char>,
    pub target: Seq<char>,
    pub version: HTTPVersion,
}

/// Reads a request line: a method of upper-case letters, blanks, a target
/// without a space, blanks, and a version literal that ends the line. Each
/// of the four runs is the longest that can be had and none is empty. `None`
/// for a line of any other shape.
pub open spec fn request_line(line: Seq<char>) -> Option<RequestLine> {
    let m = run_end(line, 0, CharClass::Upper);
    let a = run_end(line, m, CharClass::Blank);
    let b = run_end(line, a, CharClass::NonSpace);
    let c = run_end(line, b, CharClass::Blank);
    if 0 < m && m < a && a < b && b < c {
        match HTTPVersion::of_literal(line.subrange(c, line.len() as int)) {
            Some(version) => Some(
                RequestLine { method: line.subrange(0, m), target: line.subrange(a, b), version },
            ),
            None => None,
        }
    } else {
        None
    }
}

/// What a header line says, the name as it was written.
pub struct HeaderLine {
    pub name: Seq<char>,
    pub value: Seq<char>,
}

/// Reads a header line: a name, which is the longest run of name characters
/// and is not empty, a colon, and the value. One space after the colon, if
/// there is one, is no part of the value; everything behind it is. `None`
/// for a line of any other shape.
pub open spec fn header_line(line: Seq<char>) -> Option<HeaderLine> {
    let n = run_end(line, 0, CharClass::Name);
    if 0 < n && n < line.len() && line[n] == ':' {
        let v = if n + 1 < line.len() && line[n + 1] == ' ' {
            n + 2
        } else {
            n + 1
        };
        Some(HeaderLine { name: line.subrange(0, n), value: line.subrange(v, line.len() as int) })
    } else {
        None
    }
}

/// Reads a request line into its method, its target and its version, or
/// returns `None` where the line is no request line.
pub fn parse_request_line(line: &str) -> (parts: Option<(String, String, HTTPVersion)>)
    ensures
        parts matches Some(p) ==> request_line(line@) == Some(
            RequestLine { method: p.0@, target: p.1@, version: p.2 },
        ),
        parts is None ==> request_line(line@) is None,
{
    let chars: Vec<char> = to_chars(line);
    let m: usize = scan(&chars, 0, CharClass::Upper);
    let a: usize = scan(&chars, m, CharClass::Blank);
    let b: usize = scan(&chars, a, CharClass::NonSpace);
    let c: usize = scan(&chars, b, CharClass::Blank);
    if m == 0 || a == m || b == a || c == b {
        return None;
    }
    match HTTPVersion::from_literal(line.substring_char(c, chars.len())) {
        Some(version) => {
            let method: String = line.substring_char(0, m).to_owned();
            let target: String = line.substring_char(a, b).to_owned();
            Some((method, target, version))
        },
        None => None,
    }
}

/// Reads a header line into its name, as it was written, and its value, or
/// returns `None` where the line is no header line.
pub fn parse_header(line: &str) -> (parts: Option<(String, String)>)
    ensures
        parts matches Some(p) ==> header_line(line@) == Some(
            HeaderLine { name: p.0@, value: p.1@ },
        ),
        parts is None ==> header_line(line@) is None,
{
    let chars: Vec<char> = to_chars(line);
    let n: usize = scan(&chars, 0, CharClass::Name);
    if n == 0 || n >= chars.len() || chars[n] != ':' {
        return None;
    }
    let v: usize = if n + 1 < chars.len() && chars[n + 1] == ' ' {
        n + 2
    } else {
        n + 1
    };
    let name: String = line.substring_char(0, n).to_owned();
    let value: String = line.substring_char(v, chars.len()).to_owned();
    Some((name, value))
}

/// Whether every character of `s` is of `class`.
pub open spec fn all_of(s: Seq<char>, class: CharClass) -> bool {
    forall|i: int| 0 <= i < s.len() ==> class.has(#[trigger] s[i])
}

/// A request line that is written out from its parts is read back as those
/// parts: a method of upper-case letters, blanks, a target that holds no
/// space and does not begin with a tab, blanks that begin with a space, and
/// the literal of a version.
pub proof fn lemma_request_line_round_trip(
    method: Seq<char>,
    gap1: Seq<char>,
    target: Seq<char>,
    gap2: Seq<char>,
    version: HTTPVersion,
)
    requires
        method.len() > 0,
        all_of(method, CharClass::Upper),
        gap1.len() > 0,
        all_of(gap1, CharClass::Blank),
        target.len() > 0,
        all_of(target, CharClass::NonSpace),
        target[0] != '\t',
        gap2.len() > 0,
        all_of(gap2, CharClass::Blank),
        gap2[0] == ' ',
    ensures
        request_line(method + gap1 + target + gap2 + version.literal()) == Some(
            RequestLine { method, target, version },
        ),
{
    let literal = version.literal();
    let line = method + gap1 + target + gap2 + literal;
    let m = method.len() as int;
    let a = m + gap1.len();
    let b = a + target.len();
    let c = b + gap2.len();
    assert(literal.len() > 0 && literal[0] == 'H') by {
        reveal_strlit("HTTP/1.1");
        reveal_strlit("HTTP/2");
        reveal_strlit("HTTP/3");
    }
    lemma_run_end_unique(line, 0, m, CharClass::Upper);
    lemma_run_end_unique(line, m, a, CharClass::Blank);
    lemma_run_end_unique(line, a, b, CharClass::NonSpace);
    lemma_run_end_unique(line, b, c, CharClass::Blank);
    assert(line.subrange(c, line.len() as int) =~= literal);
    assert(line.subrange(0, m) =~= method);
    assert(line.subrange(a, b) =~= target);
    lemma_literal_names_version(version);
}

/// What a request line is made of: the method is one or more upper-case
/// letters, the target one or more characters other than a space, and the
/// line is the method, blanks, the target, blanks and the version's literal,
/// in this order and with nothing else.
pub proof fn lemma_request_line_shape(line: Seq<char>)
    requires
        request_line(line) is Some,
    ensures
        ({
            let first = request_line(line)->0;
            &&& first.method.len() > 0
            &&& all_of(first.method, CharClass::Upper)
            &&& first.target.len() > 0
            &&& all_of(first.target, CharClass::NonSpace)
            &&& exists|gap1: Seq<char>, gap2: Seq<char>|
                #![trigger all_of(gap1, CharClass::Blank), all_of(gap2, CharClass::Blank)]
                {
                    &&& gap1.len() > 0
                    &&& all_of(gap1, CharClass::Blank)
                    &&& gap2.len() > 0
                    &&& all_of(gap2, CharClass::Blank)
                    &&& line == first.method + gap1 + first.target + gap2
                        + first.version.literal()
                }
        }),
{
    let m = run_end(line, 0, CharClass::Upper);
    let a = run_end(line, m, CharClass::Blank);
    let b = run_end(line, a, CharClass::NonSpace);
    let c = run_end(line, b, CharClass::Blank);
    lemma_run_end(line, 0, CharClass::Upper);
    lemma_run_end(line, m, CharClass::Blank);
    lemma_run_end(line, a, CharClass::NonSpace);
    lemma_run_end(line, b, CharClass::Blank);
    let first = request_line(line)->0;
    let gap1 = line.subrange(m, a);
    let gap2 = line.subrange(b, c);
    assert(all_of(gap1, CharClass::Blank));
    assert(all_of(gap2, CharClass::Blank));
    assert(line =~= first.method + gap1 + first.target + gap2 + first.version.literal());
}

/// A line without a space is no request line.
pub proof fn lemma_request_line_needs_space(line: Seq<char>)
    requires
        forall|i: int| 0 <= i < line.len() ==> line[i] != ' ',
    ensures
        request_line(line) is None,
{
    let m = run_end(line, 0, CharClass::Upper);
    lemma_run_end(line, 0, CharClass::Upper);
    let a = run_end(line, m, CharClass::Blank);
    lemma_run_end(line, m, CharClass::Blank);
    lemma_run_end(line, a, CharClass::NonSpace);
}

/// A header line that is written out from its parts is read back as those
/// parts: a name whose characters are name characters, a colon, a space or
/// none, and a value. Without the space the value must not begin with one,
/// and the colon must not count as alphanumeric.
pub proof fn lemma_header_line_round_trip(name: Seq<char>, spaced: bool, value: Seq<char>)
    requires
        name.len() > 0,
        all_of(name, CharClass::Name),
        !is_alphanumeric(':'),
        !spaced ==> value.len() == 0 || value[0] != ' ',
    ensures
        header_line(
            name + seq![':'] + (if spaced {
                seq![' ']
            } else {
                Seq::<char>::empty()
            }) + value,
        ) == Some(HeaderLine { name, value }),
{
    let gap = if spaced {
        seq![' ']
    } else {
        Seq::<char>::empty()
    };
    let line = name + seq![':'] + gap + value;
    let n = name.len() as int;
    lemma_run_end_unique(line, 0, n, CharClass::Name);
    if spaced {
        assert(line.subrange(n + 2, line.len() as int) =~= value);
    } else {
        assert(line.subrange(n + 1, line.len() as int) =~= value);
    }
    assert(line.subrange(0, n) =~= name);
}

/// What a header line is made of: the name is one or more name characters,
/// and the line is the name, a colon and the value, with one space between
/// colon and value or with none.
pub proof fn lemma_header_line_shape(line: Seq<char>)
    requires
        header_line(line) is Some,
    ensures
        ({
            let header = header_line(line)->0;
            &&& header.name.len() > 0
            &&& all_of(header.name, CharClass::Name)
            &&& (line == header.name + seq![':'] + header.value || line == header.name + seq![
                ':',
                ' ',
            ] + header.value)
        }),
{
    lemma_run_end(line, 0, CharClass::Name);
}

/// A line without a colon is no header line.
pub proof fn lemma_header_line_needs_colon(line: Seq<char>)
    requires
        forall|i: int| 0 <= i < line.len() ==> line[i] != ':',
    ensures
        header_line(line) is None,
{
}

} // verus!
