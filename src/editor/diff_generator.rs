//! The diff shown for an edit: a unified diff without file or hunk headers,
//! and, for long content, how much of it actually changed lines.
use crate::text::{decimal, decimal_text, has_prefix, lines_of, split_lines, starts_with_text};
use vstd::prelude::*;

verus! {

/// The unified diff that `diffy` formats for two texts, with its
/// "No newline at end of file" notes switched off.
pub uninterp spec fn unified_diff(old: Seq<char>, new: Seq<char>) -> Seq<char>;

/// The old-side line ranges of the hunks of `diffy`'s patch between two
/// texts, half-open, as `HunkRange::range` gives them (its start is the
/// hunk header's one-based start line).
pub uninterp spec fn hunk_old_ranges(old: Seq<char>, new: Seq<char>) -> Seq<(usize, usize)>;

/// Relies on `diffy::DiffOptions::create_patch` formatted by
/// `diffy::PatchFormatter` without missing-newline notes.
#[verifier::external_body]
fn diff_text(source_code: &str, output: &str) -> (r: String)
    ensures
        r@ == unified_diff(source_code@, output@),
{
    let patch = diffy::DiffOptions::new().create_patch(source_code, output);
    let formatter = diffy::PatchFormatter::new().missing_newline_message(false);
    let text = formatter.fmt_patch(&patch).to_string();
    text
}

/// Relies on `diffy::DiffOptions::create_patch`: each hunk's
/// `old_range().range()`, in order, compared as they come with the
/// zero-based content line numbers.
#[verifier::external_body]
fn diff_old_ranges(source_code: &str, output: &str) -> (r: Vec<(usize, usize)>)
    ensures
        r@ == hunk_old_ranges(source_code@, output@),
{
    let patch = diffy::DiffOptions::new().create_patch(source_code, output);
    patch.hunks().iter().map(|h| h.old_range().range()).map(|r| (r.start, r.end)).collect()
}

/// Some hunk's old range holds line `l`.
pub open spec fn touched(ranges: Seq<(usize, usize)>, l: int) -> bool {
    exists|k: int| 0 <= k < ranges.len() && (#[trigger] ranges[k]).0 <= l < ranges[k].1
}

/// How many of the lines `0..n` some hunk touches.
pub open spec fn touched_count(ranges: Seq<(usize, usize)>, n: int) -> nat
    decreases n,
{
    if n <= 0 {
        0
    } else {
        touched_count(ranges, n - 1) + if touched(ranges, n - 1) {
            1nat
        } else {
            0nat
        }
    }
}

pub open spec fn tip_text() -> Seq<char> {
    "💡 TIP: For focused changes like this, you might try targeted insert/replace operations for easier review and iteration\n"@
}

/// The efficiency header: present only for content of more than ten lines.
pub open spec fn efficiency_header(content_lines: nat, changed: nat) -> Seq<char> {
    if content_lines > 10 {
        let pct = changed * 100 / content_lines;
        "Edit efficiency: "@ + decimal(pct) + "%\n"@ + (if pct < 30 {
            tip_text()
        } else {
            Seq::empty()
        }) + "\n"@
    } else {
        Seq::empty()
    }
}

/// A diff line that is a header: file names or hunk location.
pub open spec fn is_header_line(l: Seq<char>) -> bool {
    has_prefix(l, "---"@) || has_prefix(l, "+++"@) || has_prefix(l, "@@"@)
}

/// The diff lines that are not headers, each followed by a newline.
pub open spec fn body_lines(ls: Seq<Seq<char>>) -> Seq<char>
    decreases ls.len(),
{
    if ls.len() == 0 {
        Seq::empty()
    } else {
        body_lines(ls.drop_last()) + if is_header_line(ls.last()) {
            Seq::empty()
        } else {
            ls.last() + "\n"@
        }
    }
}

pub open spec fn without_final_newline(s: Seq<char>) -> Seq<char> {
    if s.len() > 0 && s.last() == '\n' {
        s.drop_last()
    } else {
        s
    }
}

/// The report for an edit of `source` into `output` with `content`.
pub open spec fn diff_report(source: Seq<char>, output: Seq<char>, content: Seq<char>) -> Seq<char> {
    let n = lines_of(content).len();
    without_final_newline(
        efficiency_header(n, touched_count(hunk_old_ranges(source, output), n as int))
            + "===DIFF===\n"@ + body_lines(lines_of(unified_diff(source, output))),
    )
}

/// Short content never gets an efficiency header, whatever the diff.
pub proof fn lemma_short_content_has_no_header(content_lines: nat, changed: nat)
    requires
        content_lines <= 10,
    ensures
        efficiency_header(content_lines, changed) == Seq::<char>::empty(),
{
}

/// The percentage is the share of content lines that the diff touched,
/// rounded down; below thirty percent the tip is added.
pub proof fn lemma_efficiency_percentage(content_lines: nat, changed: nat)
    requires
        content_lines > 10,
    ensures
        efficiency_header(content_lines, changed) == "Edit efficiency: "@ + decimal(
            changed * 100 / content_lines,
        ) + "%\n"@ + (if changed * 100 / content_lines < 30 {
            tip_text()
        } else {
            Seq::empty()
        }) + "\n"@,
{
}

/// Builds diffs and efficiency figures.
pub struct DiffGenerator;

fn is_touched(ranges: &Vec<(usize, usize)>, l: usize) -> (r: bool)
    ensures
        r == touched(ranges@, l as int),
{
    let mut k: usize = 0;
    while k < ranges.len()
        invariant
            k <= ranges@.len(),
            forall|j: int| 0 <= j < k ==> !((#[trigger] ranges@[j]).0 <= l < ranges@[j].1),
        decreases ranges.len() - k,
    {
        if ranges[k].0 <= l && l < ranges[k].1 {
            return true;
        }
        k = k + 1;
    }
    false
}

impl DiffGenerator {
    /// The number of distinct old-side lines below `content_line_count`
    /// that some hunk touches.
    pub fn calculate_changed_lines(ranges: &Vec<(usize, usize)>, content_line_count: usize) -> (r: usize)
        ensures
            r == touched_count(ranges@, content_line_count as int),
            r <= content_line_count,
    {
        let mut count: usize = 0;
        let mut l: usize = 0;
        while l < content_line_count
            invariant
                l <= content_line_count,
                count == touched_count(ranges@, l as int),
                count <= l,
            decreases content_line_count - l,
        {
            if is_touched(ranges, l) {
                count = count + 1;
            }
            l = l + 1;
        }
        count
    }

    /// The efficiency header for the given line counts.
    pub fn efficiency_header(content_line_count: usize, changed_lines: usize) -> (r: String)
        requires
            changed_lines <= content_line_count,
        ensures
            r@ == efficiency_header(content_line_count as nat, changed_lines as nat),
    {
        let mut out = String::new();
        if content_line_count > 10 {
            let wide: u128 = (changed_lines as u128) * 100 / (content_line_count as u128);
            assert(wide <= 100) by (nonlinear_arith)
                requires
                    changed_lines <= content_line_count,
                    content_line_count > 10,
                    wide == (changed_lines as int) * 100 / (content_line_count as int),
            ;
            let changed_fraction = wide as usize;
            out.append("Edit efficiency: ");
            out.append(decimal_text(changed_fraction).as_str());
            out.append("%\n");
            if changed_fraction < 30 {
                out.append("💡 TIP: For focused changes like this, you might try targeted insert/replace operations for easier review and iteration\n");
            }
            out.append("\n");
        }
        out
    }

    /// The diff of `source_code` into `output`: the efficiency header for
    /// content of more than ten lines, then the diff lines without file and
    /// hunk headers under a `===DIFF===` marker, with no trailing newline.
    pub fn generate_diff(source_code: &str, output: &str, content_patch: &str) -> (r: String)
        ensures
            r@ == diff_report(source_code@, output@, content_patch@),
    {
        let diff_output = diff_text(source_code, output);
        let lines = split_lines(diff_output.as_str());
        let ghost ls = lines_of(diff_output@);
        let content_line_count = split_lines(content_patch).len();
        let mut cleaned = if content_line_count > 10 {
            let ranges = diff_old_ranges(source_code, output);
            let changed = Self::calculate_changed_lines(&ranges, content_line_count);
            Self::efficiency_header(content_line_count, changed)
        } else {
            String::new()
        };
        let ghost head = cleaned@;
        cleaned.append("===DIFF===\n");
        let mut i: usize = 0;
        while i < lines.len()
            invariant
                i <= lines@.len(),
                lines@.len() == ls.len(),
                forall|k: int| 0 <= k < lines@.len() ==> (#[trigger] lines@[k])@ == ls[k],
                cleaned@ == head + "===DIFF===\n"@ + body_lines(ls.take(i as int)),
            decreases lines.len() - i,
        {
            let line = lines[i].as_str();
            proof {
                assert(ls.take(i + 1).drop_last() =~= ls.take(i as int));
            }
            if !(starts_with_text(line, "---") || starts_with_text(line, "+++") || starts_with_text(
                line,
                "@@",
            )) {
                cleaned.append(line);
                cleaned.append("\n");
            }
            proof {
                assert(cleaned@ =~= head + "===DIFF===\n"@ + body_lines(ls.take(i + 1)));
            }
            i = i + 1;
        }
        assert(ls.take(ls.len() as int) =~= ls);
        let cs = crate::text::char_vec(cleaned.as_str());
        if cs.len() > 0 && cs[cs.len() - 1] == '\n' {
            crate::text::string_of(&cs, 0, cs.len() - 1)
        } else {
            cleaned
        }
    }
}

} // verus!
