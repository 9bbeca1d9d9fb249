//! JSON: errors from a strict JSON reader, formatting in the indentation
//! style the document already uses.
use crate::text::{char_vec, lines_of, split_lines};
use vstd::prelude::*;

verus! {

/// The one-based line of the first error that `serde_json` reports for a
/// text, `None` where the text is one JSON value.
pub uninterp spec fn json_parse_error_line(text: Seq<char>) -> Option<usize>;

/// What `jsonformat` makes of a text with the given indentation unit.
pub uninterp spec fn json_layout(text: Seq<char>, unit: Seq<char>) -> Seq<char>;

/// Relies on `serde_json::from_str::<Value>` and `Error::line`: the line of
/// the first error, which depends on the text alone.
#[verifier::external_body]
fn json_error_line(content: &str) -> (r: Option<usize>)
    ensures
        r == json_parse_error_line(content@),
{
    serde_json::from_str::<serde_json::Value>(content).err().map(|e| e.line())
}

/// Relies on `jsonformat::format`, with the unit as a custom indentation
/// (its two-space, four-space and tab styles write exactly that unit).
#[verifier::external_body]
fn json_format(source: &str, unit: &str) -> (r: String)
    ensures
        r@ == json_layout(source@, unit@),
{
    jsonformat::format(source, jsonformat::Indentation::Custom(unit))
}

/// Number of spaces that begin a line.
pub open spec fn leading_spaces(line: Seq<char>) -> nat
    decreases line.len(),
{
    if line.len() == 0 || line[0] != ' ' {
        0
    } else {
        1 + leading_spaces(line.subrange(1, line.len() as int))
    }
}

pub open spec fn abs_diff(a: nat, b: nat) -> nat {
    if a >= b {
        (a - b) as nat
    } else {
        (b - a) as nat
    }
}

/// The indentation survey over the first `k` lines: lines that start with a
/// tab, the indentation of the last other line, the last non-zero change of
/// indentation, and that last change as recorded after each other line.
pub open spec fn survey(lines: Seq<Seq<char>>, k: int) -> (nat, nat, nat, Seq<nat>)
    decreases k,
{
    if k <= 0 {
        (0, 0, 0, Seq::empty())
    } else {
        let (tabs, last, change, seen) = survey(lines, k - 1);
        let line = lines[k - 1];
        if line.len() > 0 && line[0] == '\t' {
            ((tabs + 1) as nat, last, change, seen)
        } else {
            let count = leading_spaces(line);
            let d = abs_diff(count, last);
            let c = if d > 0 {
                d
            } else {
                change
            };
            (tabs, count, c, seen.push(c))
        }
    }
}

/// How often `v` occurs in `s`.
pub open spec fn count_of(s: Seq<nat>, v: nat) -> nat
    decreases s.len(),
{
    if s.len() == 0 {
        0
    } else {
        count_of(s.drop_last(), v) + if s.last() == v {
            1nat
        } else {
            0nat
        }
    }
}

/// Over the first `k` recorded changes: the highest count, and the largest
/// change with that count.
pub open spec fn most_common(s: Seq<nat>, k: int) -> (nat, nat)
    decreases k,
{
    if k <= 0 {
        (0, 0)
    } else {
        let (m, v) = most_common(s, k - 1);
        let c = count_of(s, s[k - 1]);
        if c > m || (c == m && s[k - 1] > v) {
            (c, s[k - 1])
        } else {
            (m, v)
        }
    }
}

/// The indentation unit of a JSON text, judged on its first hundred lines:
/// a tab where tab-led lines are at least as many as the most common change
/// of indentation, else that change (the largest, on a tie) in spaces.
pub open spec fn json_indent_unit(text: Seq<char>) -> Seq<char> {
    let lines = lines_of(text);
    let k = if lines.len() < 100 {
        lines.len() as int
    } else {
        100
    };
    let (tabs, _, _, seen) = survey(lines, k);
    let (m, v) = most_common(seen, seen.len() as int);
    if tabs >= m {
        "\t"@
    } else {
        Seq::new(v, |i: int| ' ')
    }
}

/// JSON's editor: strict error lines and style-preserving formatting.
#[derive(Debug, Clone, Copy)]
pub struct JsonEditor;

fn count_leading_spaces(line: &str) -> (r: usize)
    ensures
        r == leading_spaces(line@),
{
    let cs = char_vec(line);
    let mut i: usize = 0;
    assert(cs@.subrange(0, cs@.len() as int) =~= cs@);
    while i < cs.len() && cs[i] == ' '
        invariant
            i <= cs@.len(),
            cs@ == line@,
            leading_spaces(line@) == i + leading_spaces(cs@.subrange(i as int, cs@.len() as int)),
        decreases cs.len() - i,
    {
        proof {
            let rest = cs@.subrange(i as int, cs@.len() as int);
            assert(rest.subrange(1, rest.len() as int) =~= cs@.subrange(i + 1, cs@.len() as int));
        }
        i = i + 1;
    }
    i
}

fn count_in(s: &Vec<usize>, v: usize) -> (r: usize)
    ensures
        r == count_of(s@.map_values(|x: usize| x as nat), v as nat),
{
    let ghost t = s@.map_values(|x: usize| x as nat);
    let mut c: usize = 0;
    let mut i: usize = 0;
    while i < s.len()
        invariant
            i <= s@.len(),
            t == s@.map_values(|x: usize| x as nat),
            c == count_of(t.take(i as int), v as nat),
            c <= i,
        decreases s.len() - i,
    {
        assert(t.take(i + 1).drop_last() =~= t.take(i as int));
        if s[i] == v {
            c = c + 1;
        }
        i = i + 1;
    }
    assert(t.take(s@.len() as int) =~= t);
    c
}

impl JsonEditor {
    pub fn new() -> (r: Self) {
        JsonEditor
    }

    /// The indentation unit the document already uses.
    pub fn indent_unit(source: &str) -> (r: String)
        ensures
            r@ == json_indent_unit(source@),
    {
        let lines = split_lines(source);
        let ghost ls = lines_of(source@);
        let k: usize = if lines.len() < 100 {
            lines.len()
        } else {
            100
        };
        let mut tabs: usize = 0;
        let mut last: usize = 0;
        let mut change: usize = 0;
        let mut seen: Vec<usize> = Vec::new();
        let mut i: usize = 0;
        while i < k
            invariant
                k <= lines@.len(),
                k <= 100,
                i <= k,
                lines@.len() == ls.len(),
                forall|j: int| 0 <= j < lines@.len() ==> (#[trigger] lines@[j])@ == ls[j],
                tabs <= i,
                ({
                    let (t, l, c, s) = survey(ls, i as int);
                    t == tabs && l == last && c == change && s == seen@.map_values(|x: usize| x as nat)
                }),
            decreases k - i,
        {
            let line = lines[i].as_str();
            let cs = char_vec(line);
            if cs.len() > 0 && cs[0] == '\t' {
                tabs = tabs + 1;
            } else {
                let count = count_leading_spaces(line);
                let d = if count >= last {
                    count - last
                } else {
                    last - count
                };
                last = count;
                if d > 0 {
                    change = d;
                }
                seen.push(change);
                proof {
                    assert(seen@.map_values(|x: usize| x as nat) =~= survey(ls, i as int).3.push(change as nat));
                }
            }
            i = i + 1;
        }
        let ghost t = seen@.map_values(|x: usize| x as nat);
        let mut best_count: usize = 0;
        let mut best_value: usize = 0;
        let mut j: usize = 0;
        while j < seen.len()
            invariant
                j <= seen@.len(),
                t == seen@.map_values(|x: usize| x as nat),
                most_common(t, j as int) == (best_count as nat, best_value as nat),
            decreases seen.len() - j,
        {
            let c = count_in(&seen, seen[j]);
            if c > best_count || (c == best_count && seen[j] > best_value) {
                best_count = c;
                best_value = seen[j];
            }
            j = j + 1;
        }
        if tabs >= best_count {
            String::from_str("\t")
        } else {
            let mut unit = String::new();
            let mut n: usize = 0;
            while n < best_value
                invariant
                    n <= best_value,
                    unit@ =~= Seq::new(n as nat, |x: int| ' '),
                decreases best_value - n,
            {
                unit.append(" ");
                proof {
                    reveal_strlit(" ");
                }
                n = n + 1;
            }
            unit
        }
    }

    /// Reformats a JSON document, keeping its indentation style.
    pub fn format_code(&self, source: &str) -> (r: Result<String, String>)
        ensures
            r is Ok,
            r->Ok_0@ == json_layout(source@, json_indent_unit(source@)),
    {
        let unit = Self::indent_unit(source);
        Ok(json_format(source, unit.as_str()))
    }

    /// The zero-based line of the first JSON error, if any.
    pub fn collect_errors(&self, content: &str) -> (r: Vec<usize>)
        ensures
            r@ == match json_parse_error_line(content@) {
                None => Seq::<usize>::empty(),
                Some(line) => seq![if line >= 1 { (line - 1) as usize } else { 0usize }],
            },
    {
        match json_error_line(content) {
            None => Vec::new(),
            Some(line) => {
                let mut v = Vec::new();
                v.push(if line >= 1 { line - 1 } else { 0 });
                v
            },
        }
    }
}

} // verus!
