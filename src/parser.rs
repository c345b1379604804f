//! Reading an interaction script from its text.
//!
//! Each line is classified by its first two characters: `##` names the
//! interaction, `#` starts a comment, `$$` adds a command-line argument,
//! `> ` an input line, `<l` a literal output line, `<r` a pattern, and any
//! other line is a literal output line taken whole.
use vstd::prelude::*;
use crate::script::{InteractionTest, InteractionLine, InteractionLineKind, InteractionParseError, LineView};
use crate::outcome::texts;
use crate::text::{chars_of, join2};

verus! {

/// Relies on `String::push`, which appends one character.
#[verifier::external_body]
fn push_char(s: &mut String, c: char)
    ensures
        final(s)@ == old(s)@.push(c),
{
    s.push(c)
}

/// A line without the carriage return that ended it, if any.
pub open spec fn strip_cr(l: Seq<char>) -> Seq<char> {
    if l.len() > 0 && l.last() == '\r' {
        l.drop_last()
    } else {
        l
    }
}

/// The lines of `s` from `start`, scanning from `i`: split at `\n`, a
/// `\r` before the `\n` dropped, and no empty line after a final `\n`.
pub open spec fn lines_from(s: Seq<char>, start: int, i: int) -> Seq<Seq<char>>
    decreases s.len() - i,
{
    if i >= s.len() {
        if start < s.len() {
            seq![s.subrange(start, s.len() as int)]
        } else {
            Seq::empty()
        }
    } else if s[i] == '\n' {
        seq![strip_cr(s.subrange(start, i))] + lines_from(s, i + 1, i + 1)
    } else {
        lines_from(s, start, i + 1)
    }
}

/// The lines of a text.
pub open spec fn split_lines(s: Seq<char>) -> Seq<Seq<char>> {
    lines_from(s, 0, 0)
}

/// Unicode white space.
pub open spec fn is_space(c: char) -> bool {
    ||| '\t' <= c <= '\r'
    ||| c == ' '
    ||| c == '\u{85}'
    ||| c == '\u{a0}'
    ||| c == '\u{1680}'
    ||| '\u{2000}' <= c <= '\u{200a}'
    ||| c == '\u{2028}'
    ||| c == '\u{2029}'
    ||| c == '\u{202f}'
    ||| c == '\u{205f}'
    ||| c == '\u{3000}'
}

fn space(c: char) -> (r: bool)
    ensures
        r == is_space(c),
{
    ('\t' <= c && c <= '\r') || c == ' ' || c == '\u{85}' || c == '\u{a0}' || c == '\u{1680}' || (
    '\u{2000}' <= c && c <= '\u{200a}') || c == '\u{2028}' || c == '\u{2029}' || c == '\u{202f}'
        || c == '\u{205f}' || c == '\u{3000}'
}

/// A line without the white space at either end.
pub open spec fn trim_spec(l: Seq<char>) -> Seq<char>
    decreases l.len(),
{
    if l.len() > 0 && is_space(l[0]) {
        trim_spec(l.drop_first())
    } else if l.len() > 0 && is_space(l.last()) {
        trim_spec(l.drop_last())
    } else {
        l
    }
}

/// The character at `i`, or a vertical tab past the end.
pub open spec fn char_at(l: Seq<char>, i: int) -> char {
    if i < l.len() {
        l[i]
    } else {
        '\x0b'
    }
}

/// A line without its two marker characters.
pub open spec fn after_marker(l: Seq<char>) -> Seq<char> {
    if l.len() >= 2 {
        l.subrange(2, l.len() as int)
    } else {
        Seq::empty()
    }
}

/// What one script line means.
pub enum LineClass {
    Name(Seq<char>),
    Comment,
    Argument(Seq<char>),
    Step(InteractionLineKind, Seq<char>),
    Invalid,
}

pub open spec fn classify(l: Seq<char>) -> LineClass {
    let c0 = char_at(l, 0);
    let c1 = char_at(l, 1);
    if c0 == '#' {
        if c1 == '#' {
            LineClass::Name(trim_spec(after_marker(l)))
        } else {
            LineClass::Comment
        }
    } else if c0 == '$' {
        if c1 == '$' {
            LineClass::Argument(trim_spec(after_marker(l)))
        } else {
            LineClass::Invalid
        }
    } else if c0 == '>' {
        if c1 == ' ' {
            LineClass::Step(InteractionLineKind::Input, after_marker(l))
        } else {
            LineClass::Invalid
        }
    } else if c0 == '<' {
        if c1 == 'r' {
            LineClass::Step(InteractionLineKind::OutputRegex, after_marker(l))
        } else if c1 == 'l' {
            LineClass::Step(InteractionLineKind::OutputLiteral, after_marker(l))
        } else {
            LineClass::Invalid
        }
    } else {
        LineClass::Step(InteractionLineKind::OutputLiteral, l)
    }
}

/// What has been read of a script so far.
pub struct ScriptView {
    pub name: Seq<char>,
    pub arguments: Seq<Seq<char>>,
    pub lines: Seq<LineView>,
}

/// Reads `lines` from `i` on into `acc`; an invalid line stops with its message.
pub open spec fn parse_from(lines: Seq<Seq<char>>, i: nat, acc: ScriptView) -> Result<
    ScriptView,
    Seq<char>,
>
    decreases lines.len() - i,
{
    if i >= lines.len() {
        Ok(acc)
    } else {
        let l = lines[i as int];
        match classify(l) {
            LineClass::Name(name) => parse_from(lines, i + 1, ScriptView { name, ..acc }),
            LineClass::Comment => parse_from(lines, i + 1, acc),
            LineClass::Argument(a) => parse_from(
                lines,
                i + 1,
                ScriptView { arguments: acc.arguments.push(a), ..acc },
            ),
            LineClass::Step(kind, content) => parse_from(
                lines,
                i + 1,
                ScriptView {
                    lines: acc.lines.push(LineView { line_idx: i, content, kind }),
                    ..acc
                },
            ),
            LineClass::Invalid => Err("invalid line '"@ + l + "'"@),
        }
    }
}

/// The script that a text describes, or the message for its first invalid line.
pub open spec fn parse_spec(content: Seq<char>) -> Result<ScriptView, Seq<char>> {
    parse_from(
        split_lines(content),
        0,
        ScriptView { name: Seq::empty(), arguments: Seq::empty(), lines: Seq::empty() },
    )
}

/// Character sequences of a list of character vectors.
pub open spec fn char_lines(v: Seq<Vec<char>>) -> Seq<Seq<char>> {
    v.map_values(|l: Vec<char>| l@)
}

/// The characters `from..to` of `v`.
fn slice_chars(v: &Vec<char>, from: usize, to: usize) -> (r: Vec<char>)
    requires
        from <= to <= v@.len(),
    ensures
        r@ == v@.subrange(from as int, to as int),
{
    let mut r: Vec<char> = Vec::new();
    let mut i = from;
    while i < to
        invariant
            from <= i <= to <= v@.len(),
            r@ == v@.subrange(from as int, i as int),
        decreases to - i,
    {
        r.push(v[i]);
        i = i + 1;
        assert(r@ =~= v@.subrange(from as int, i as int));
    }
    r
}

/// The characters `from..to` of `v` as a string.
pub(crate) fn string_of(v: &Vec<char>, from: usize, to: usize) -> (r: String)
    requires
        from <= to <= v@.len(),
    ensures
        r@ == v@.subrange(from as int, to as int),
{
    let mut r = String::new();
    let mut i = from;
    while i < to
        invariant
            from <= i <= to <= v@.len(),
            r@ == v@.subrange(from as int, i as int),
        decreases to - i,
    {
        push_char(&mut r, v[i]);
        i = i + 1;
        assert(r@ =~= v@.subrange(from as int, i as int));
    }
    r
}

/// The bounds of `v[from..to]` without the white space at either end.
fn trim_range(v: &Vec<char>, from: usize, to: usize) -> (r: (usize, usize))
    requires
        from <= to <= v@.len(),
    ensures
        from <= r.0 <= r.1 <= to,
        v@.subrange(r.0 as int, r.1 as int) == trim_spec(v@.subrange(from as int, to as int)),
{
    let mut lo = from;
    while lo < to && space(v[lo])
        invariant
            from <= lo <= to <= v@.len(),
            trim_spec(v@.subrange(lo as int, to as int)) == trim_spec(
                v@.subrange(from as int, to as int),
            ),
        decreases to - lo,
    {
        assert(v@.subrange(lo as int, to as int).drop_first() =~= v@.subrange(lo + 1, to as int));
        lo = lo + 1;
    }
    let mut hi = to;
    while hi > lo && space(v[hi - 1])
        invariant
            from <= lo <= hi <= to <= v@.len(),
            lo < hi ==> !is_space(v@[lo as int]),
            trim_spec(v@.subrange(lo as int, hi as int)) == trim_spec(
                v@.subrange(from as int, to as int),
            ),
        decreases hi - lo,
    {
        assert(v@.subrange(lo as int, hi as int).drop_last() =~= v@.subrange(lo as int, hi - 1));
        hi = hi - 1;
    }
    proof {
        let t = v@.subrange(lo as int, hi as int);
        if t.len() > 0 {
            assert(t[0] == v@[lo as int]);
            assert(t.last() == v@[hi - 1]);
        }
    }
    (lo, hi)
}

/// Splits a text into its lines.
fn split_into_lines(s: &Vec<char>) -> (r: Vec<Vec<char>>)
    ensures
        char_lines(r@) == split_lines(s@),
{
    let mut r: Vec<Vec<char>> = Vec::new();
    let mut start: usize = 0;
    let mut i: usize = 0;
    while i < s.len()
        invariant
            start <= i <= s@.len(),
            char_lines(r@) + lines_from(s@, start as int, i as int) == split_lines(s@),
        decreases s@.len() - i,
    {
        if s[i] == '\n' {
            let end = if i > start && s[i - 1] == '\r' { i - 1 } else { i };
            let line = slice_chars(s, start, end);
            proof {
                let l = s@.subrange(start as int, i as int);
                if i > start && s@[i - 1] == '\r' {
                    assert(l.last() == s@[i - 1]);
                    assert(l.drop_last() =~= s@.subrange(start as int, end as int));
                } else {
                    assert(l.len() > 0 ==> l.last() == s@[i - 1]);
                }
                assert(char_lines(r@.push(line)) =~= char_lines(r@).push(line@));
            }
            r.push(line);
            start = i + 1;
        }
        i = i + 1;
    }
    if start < s.len() {
        let line = slice_chars(s, start, s.len());
        proof {
            assert(char_lines(r@.push(line)) =~= char_lines(r@) + seq![line@]);
        }
        r.push(line);
    } else {
        assert(char_lines(r@) + Seq::<Seq<char>>::empty() =~= char_lines(r@));
    }
    r
}

/// The message for an invalid line.
fn invalid_line(l: &Vec<char>) -> (r: InteractionParseError)
    ensures
        r.0@ == "invalid line '"@ + l@ + "'"@,
{
    let text = string_of(l, 0, l.len());
    assert(l@.subrange(0, l@.len() as int) =~= l@);
    let head = join2("invalid line '", text.as_str());
    InteractionParseError(join2(head.as_str(), "'"))
}

/// Reads the script at `file_path`, whose text is `content`.
pub fn parse(file_path: &String, content: &str) -> (r: Result<InteractionTest, InteractionParseError>)
    ensures
        match parse_spec(content@) {
            Ok(v) => r matches Ok(t) && t.name@ == v.name && t.file_path@ == file_path@ && texts(
                t.command_arguments@,
            ) == v.arguments && t.lines_view() == v.lines,
            Err(m) => r matches Err(e) && e.0@ == m,
        },
{
    let chars = chars_of(content);
    let lines = split_into_lines(&chars);
    let ghost all = char_lines(lines@);
    let mut name = String::new();
    let mut arguments: Vec<String> = Vec::new();
    let mut steps: Vec<InteractionLine> = Vec::new();
    let mut i: usize = 0;
    proof {
        assert(texts(arguments@) =~= Seq::<Seq<char>>::empty());
        assert(steps@.map_values(|l: InteractionLine| l@) =~= Seq::<LineView>::empty());
    }
    while i < lines.len()
        invariant
            i <= lines@.len(),
            all == char_lines(lines@),
            all == split_lines(content@),
            parse_from(
                all,
                i as nat,
                ScriptView {
                    name: name@,
                    arguments: texts(arguments@),
                    lines: steps@.map_values(|l: InteractionLine| l@),
                },
            ) == parse_spec(content@),
        decreases lines@.len() - i,
    {
        let l = &lines[i];
        let n = l.len();
        assert(all[i as int] == l@);
        let c0 = if n > 0 { l[0] } else { '\x0b' };
        let c1 = if n > 1 { l[1] } else { '\x0b' };
        let from: usize = if n >= 2 { 2 } else { n };
        assert(after_marker(l@) =~= l@.subrange(from as int, n as int));
        let ghost before_args = arguments@;
        let ghost before_steps = steps@;
        if c0 == '#' {
            if c1 == '#' {
                let (a, b) = trim_range(l, from, n);
                name = string_of(l, a, b);
            }
        } else if c0 == '$' {
            if c1 == '$' {
                let (a, b) = trim_range(l, from, n);
                arguments.push(string_of(l, a, b));
                assert(texts(arguments@) =~= texts(before_args).push(arguments@.last()@));
            } else {
                return Err(invalid_line(l));
            }
        } else if c0 == '>' || c0 == '<' {
            let kind = if c0 == '>' && c1 == ' ' {
                InteractionLineKind::Input
            } else if c0 == '<' && c1 == 'r' {
                InteractionLineKind::OutputRegex
            } else if c0 == '<' && c1 == 'l' {
                InteractionLineKind::OutputLiteral
            } else {
                return Err(invalid_line(l));
            };
            let content = string_of(l, from, n);
            steps.push(InteractionLine { line_idx: i, content, kind });
            assert(steps@.map_values(|l: InteractionLine| l@) =~= before_steps.map_values(
                |l: InteractionLine| l@,
            ).push(steps@.last()@));
        } else {
            let content = string_of(l, 0, n);
            assert(l@.subrange(0, n as int) =~= l@);
            steps.push(InteractionLine { line_idx: i, content, kind: InteractionLineKind::OutputLiteral });
            assert(steps@.map_values(|l: InteractionLine| l@) =~= before_steps.map_values(
                |l: InteractionLine| l@,
            ).push(steps@.last()@));
        }
        i = i + 1;
    }
    let test = InteractionTest {
        name,
        file_path: file_path.clone(),
        command_arguments: arguments,
        lines: steps,
    };
    Ok(test)
}

} // verus!
