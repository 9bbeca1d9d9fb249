//! The candidate resolver: from a selector and the source to the ordered
//! list of concrete edits worth trying.
use crate::editor::edit::Edit;
use crate::editor::edit_position::EditPosition;
use crate::selector::{join_lines, Operation, Selector};
use crate::text::{find_all, lemma_matches_sound, lines_of, occurrences, split_lines, trim_text, trimmed};
use vstd::prelude::*;
use vstd::string::StringSliceAdditionalSpecFns;
use vstd::utf8::*;

verus! {

pub open spec fn point(p: int) -> EditPosition {
    EditPosition { start_byte: p as usize, end_byte: None }
}

pub open spec fn span(s: int, e: int) -> EditPosition {
    EditPosition { start_byte: s as usize, end_byte: Some(e as usize) }
}

/// Each position with the same content.
pub open spec fn planned(ps: Seq<EditPosition>, c: Seq<char>) -> Seq<(EditPosition, Seq<char>)> {
    Seq::new(ps.len(), |i: int| (ps[i], c))
}

/// Content padded on the side that faces the anchor.
pub open spec fn pad(c: Seq<char>, p: Seq<char>, before: bool) -> Seq<char> {
    if before {
        c + p
    } else {
        p + c
    }
}

/// The literal candidates, then all of them padded with a space, then all
/// of them padded with a newline.
pub open spec fn with_spacing(ps: Seq<EditPosition>, c: Seq<char>, before: bool) -> Seq<(EditPosition, Seq<char>)> {
    planned(ps, c) + planned(ps, pad(c, " "@, before)) + planned(ps, pad(c, "\n"@, before))
}

/// A position in order and within a text of `len` bytes.
pub open spec fn in_order(len: int, p: EditPosition) -> bool {
    p.start_byte <= crate::editor::edit::end_of(p) <= len
}

pub open spec fn insert_points(ms: Seq<usize>, shift: int) -> Seq<EditPosition> {
    Seq::new(ms.len(), |i: int| point(ms[i] + shift))
}

pub open spec fn exact_spans(ms: Seq<usize>, len: int) -> Seq<EditPosition> {
    Seq::new(ms.len(), |i: int| span(ms[i] as int, ms[i] + len))
}

/// Ranges from the anchor match at `f` to each end match that starts no
/// earlier than the anchor match ends.
pub open spec fn pairs_for(f: usize, tos: Seq<usize>, alen: int, elen: int) -> Seq<EditPosition>
    decreases tos.len(),
{
    if tos.len() == 0 {
        Seq::empty()
    } else {
        pairs_for(f, tos.drop_last(), alen, elen) + if tos.last() >= f + alen {
            seq![span(f as int, tos.last() + elen)]
        } else {
            Seq::empty()
        }
    }
}

/// Every anchor match crossed with every end match, in anchor order.
pub open spec fn range_spans(froms: Seq<usize>, tos: Seq<usize>, alen: int, elen: int) -> Seq<EditPosition>
    decreases froms.len(),
{
    if froms.len() == 0 {
        Seq::empty()
    } else {
        range_spans(froms.drop_last(), tos, alen, elen) + pairs_for(froms.last(), tos, alen, elen)
    }
}

pub open spec fn node_at(nodes: Seq<Option<(usize, usize)>>, i: int) -> Option<(usize, usize)> {
    if 0 <= i < nodes.len() {
        nodes[i]
    } else {
        None
    }
}

/// The spans of the nodes found for the first `k` key matches.
pub open spec fn node_spans(nodes: Seq<Option<(usize, usize)>>, k: int) -> Seq<EditPosition>
    decreases k,
{
    if k <= 0 {
        Seq::empty()
    } else {
        node_spans(nodes, k - 1) + match node_at(nodes, k - 1) {
            Some(n) => seq![span(n.0 as int, n.1 as int)],
            None => Seq::empty(),
        }
    }
}

/// The end points of the nodes found for the first `k` key matches.
pub open spec fn node_ends(nodes: Seq<Option<(usize, usize)>>, k: int) -> Seq<EditPosition>
    decreases k,
{
    if k <= 0 {
        Seq::empty()
    } else {
        node_ends(nodes, k - 1) + match node_at(nodes, k - 1) {
            Some(n) => seq![point(n.1 as int)],
            None => Seq::empty(),
        }
    }
}

/// The text looked up for node operations: the first line of the trimmed
/// anchor, trimmed.
pub open spec fn node_key(anchor: Seq<char>) -> Seq<char> {
    let ls = lines_of(trimmed(anchor));
    trimmed(if ls.len() > 0 { ls[0] } else { Seq::empty() })
}

pub open spec fn quoted(label: Seq<char>, t: Seq<char>, tail: Seq<char>) -> Seq<char> {
    label + "\""@ + t + "\""@ + tail
}

pub open spec fn no_range_message(anchor: Seq<char>, end: Seq<char>) -> Seq<char> {
    "No valid range found from \""@ + anchor + "\" to \""@ + end + "\""@
}

/// The candidates of a well-formed selector, or why there are none.
pub open spec fn resolution(
    op: Operation,
    anchor: Seq<char>,
    end: Option<Seq<char>>,
    src: Seq<u8>,
    content: Seq<char>,
    nodes: Seq<Option<(usize, usize)>>,
) -> Result<Seq<(EditPosition, Seq<char>)>, Seq<char>> {
    let a = encode_utf8(anchor);
    let ms = occurrences(src, a);
    let key = node_key(anchor);
    let ks = occurrences(src, encode_utf8(key));
    let not_found = " not found in source"@;
    match op {
        Operation::InsertBefore => if ms.len() == 0 {
            Err(quoted("Anchor text "@, anchor, not_found))
        } else {
            Ok(with_spacing(insert_points(ms, 0), content, true))
        },
        Operation::InsertAfter => if ms.len() == 0 {
            Err(quoted("Anchor text "@, anchor, not_found))
        } else {
            Ok(with_spacing(insert_points(ms, a.len() as int), content, false))
        },
        Operation::InsertAfterNode => if ks.len() == 0 {
            Err(quoted("From text "@, key, not_found))
        } else {
            Ok(with_spacing(node_ends(nodes, ks.len() as int), content, false))
        },
        Operation::ReplaceRange => match end {
            None => Err("end is required for range replacement"@),
            Some(e) => {
                let eb = encode_utf8(e);
                let tos = occurrences(src, eb);
                if ms.len() == 0 {
                    Err(quoted("From text "@, anchor, not_found))
                } else if tos.len() == 0 {
                    Err(quoted("To text "@, e, not_found))
                } else if range_spans(ms, tos, a.len() as int, eb.len() as int).len() == 0 {
                    Err(no_range_message(anchor, e))
                } else {
                    Ok(planned(range_spans(ms, tos, a.len() as int, eb.len() as int), content))
                }
            },
        },
        Operation::ReplaceExact => if ms.len() == 0 {
            Err(quoted("Exact text "@, anchor, not_found))
        } else {
            Ok(planned(exact_spans(ms, a.len() as int), content))
        },
        Operation::ReplaceNode => if ks.len() == 0 {
            Err(quoted("From text "@, key, not_found))
        } else {
            Ok(planned(node_spans(nodes, ks.len() as int), content))
        },
    }
}

/// What the resolver yields for a selector: its shape problems, or the
/// resolution.
pub open spec fn find_edits_spec(
    sel: Selector,
    src: Seq<u8>,
    content: Seq<char>,
    nodes: Seq<Option<(usize, usize)>>,
) -> Result<Seq<(EditPosition, Seq<char>)>, Seq<char>> {
    if sel.problems().len() > 0 {
        Err(join_lines(sel.problems()))
    } else {
        resolution(sel.operation, sel.anchor@, match sel.end {
            Some(e) => Some(e@),
            None => None,
        }, src, content, nodes)
    }
}

pub open spec fn views(es: Seq<Edit>) -> Seq<(EditPosition, Seq<char>)> {
    es.map_values(|e: Edit| e@)
}

/// Appends each position with the content.
fn push_planned(out: &mut Vec<Edit>, ps: &Vec<EditPosition>, content: &str)
    ensures
        views(final(out)@) == views(old(out)@) + planned(ps@, content@),
{
    let ghost start = views(out@);
    let mut i: usize = 0;
    while i < ps.len()
        invariant
            i <= ps@.len(),
            views(out@) == start + planned(ps@.take(i as int), content@),
        decreases ps.len() - i,
    {
        let ghost before = out@;
        out.push(Edit::new(ps[i], String::from_str(content)));
        proof {
            assert(views(out@) =~= views(before).push((ps@[i as int], content@)));
            assert(planned(ps@.take(i + 1), content@) =~= planned(ps@.take(i as int), content@).push((ps@[i as int], content@)));
        }
        i = i + 1;
    }
    assert(ps@.take(ps@.len() as int) =~= ps@);
}

fn padded_text(content: &str, p: &str, before: bool) -> (r: String)
    ensures
        r@ == pad(content@, p@, before),
{
    if before {
        let mut s = String::from_str(content);
        s.append(p);
        s
    } else {
        let mut s = String::from_str(p);
        s.append(content);
        s
    }
}

/// The candidates at the given positions: literal, then space-padded, then
/// newline-padded.
fn spaced_edits(ps: &Vec<EditPosition>, content: &str, before: bool) -> (r: Vec<Edit>)
    ensures
        views(r@) == with_spacing(ps@, content@, before),
        forall|i: int| 0 <= i < r@.len() ==> exists|j: int| 0 <= j < ps@.len() && (#[trigger] r@[i]).position == ps@[j],
{
    let mut out: Vec<Edit> = Vec::new();
    assert(views(out@) =~= Seq::empty());
    push_planned(&mut out, ps, content);
    let spaced = padded_text(content, " ", before);
    push_planned(&mut out, ps, spaced.as_str());
    let lined = padded_text(content, "\n", before);
    push_planned(&mut out, ps, lined.as_str());
    assert(views(out@) =~= with_spacing(ps@, content@, before));
    proof {
        let n = ps@.len() as int;
        assert forall|i: int| 0 <= i < out@.len() implies exists|j: int| 0 <= j < ps@.len() && (#[trigger] out@[i]).position == ps@[j] by {
            assert(views(out@)[i] == out@[i]@);
            let j = if i < n { i } else if i < 2 * n { i - n } else { i - 2 * n };
            assert(out@[i].position == ps@[j]);
        }
    }
    out
}

fn planned_edits(ps: &Vec<EditPosition>, content: &str) -> (r: Vec<Edit>)
    ensures
        views(r@) == planned(ps@, content@),
        r@.len() == ps@.len(),
        forall|i: int| 0 <= i < r@.len() ==> (#[trigger] r@[i]).position == ps@[i],
{
    let mut out: Vec<Edit> = Vec::new();
    assert(views(out@) =~= Seq::empty());
    push_planned(&mut out, ps, content);
    assert(views(out@) =~= planned(ps@, content@));
    assert(views(out@).len() == out@.len());
    proof {
        assert forall|i: int| 0 <= i < out@.len() implies (#[trigger] out@[i]).position == ps@[i] by {
            assert(views(out@)[i] == out@[i]@);
        }
    }
    out
}

fn insert_positions(ms: &Vec<usize>, shift: usize, total: usize) -> (r: Vec<EditPosition>)
    requires
        forall|k: int| 0 <= k < ms@.len() ==> #[trigger] ms@[k] + shift <= total,
    ensures
        r@ == insert_points(ms@, shift as int),
        forall|i: int| 0 <= i < r@.len() ==> #[trigger] in_order(total as int, r@[i]),
{
    let mut out: Vec<EditPosition> = Vec::new();
    let mut i: usize = 0;
    while i < ms.len()
        invariant
            i <= ms@.len(),
            forall|k: int| 0 <= k < ms@.len() ==> #[trigger] ms@[k] + shift <= total,
            out@ =~= insert_points(ms@.take(i as int), shift as int),
            forall|j: int| 0 <= j < out@.len() ==> #[trigger] in_order(total as int, out@[j]),
        decreases ms.len() - i,
    {
        assert(ms@[i as int] + shift <= total);
        out.push(EditPosition { start_byte: ms[i] + shift, end_byte: None });
        i = i + 1;
    }
    assert(ms@.take(ms@.len() as int) =~= ms@);
    out
}

fn exact_positions(ms: &Vec<usize>, len: usize, total: usize) -> (r: Vec<EditPosition>)
    requires
        forall|k: int| 0 <= k < ms@.len() ==> #[trigger] ms@[k] + len <= total,
    ensures
        r@ == exact_spans(ms@, len as int),
        forall|i: int| 0 <= i < r@.len() ==> #[trigger] in_order(total as int, r@[i]),
{
    let mut out: Vec<EditPosition> = Vec::new();
    let mut i: usize = 0;
    while i < ms.len()
        invariant
            i <= ms@.len(),
            forall|k: int| 0 <= k < ms@.len() ==> #[trigger] ms@[k] + len <= total,
            out@ =~= exact_spans(ms@.take(i as int), len as int),
            forall|j: int| 0 <= j < out@.len() ==> #[trigger] in_order(total as int, out@[j]),
        decreases ms.len() - i,
    {
        assert(ms@[i as int] + len <= total);
        out.push(EditPosition { start_byte: ms[i], end_byte: Some(ms[i] + len) });
        i = i + 1;
    }
    assert(ms@.take(ms@.len() as int) =~= ms@);
    out
}

fn range_positions(froms: &Vec<usize>, tos: &Vec<usize>, alen: usize, elen: usize, total: usize) -> (r: Vec<EditPosition>)
    requires
        forall|k: int| 0 <= k < froms@.len() ==> #[trigger] froms@[k] + alen <= total,
        forall|k: int| 0 <= k < tos@.len() ==> #[trigger] tos@[k] + elen <= total,
    ensures
        r@ == range_spans(froms@, tos@, alen as int, elen as int),
        forall|i: int| 0 <= i < r@.len() ==> #[trigger] in_order(total as int, r@[i]),
{
    let mut out: Vec<EditPosition> = Vec::new();
    let mut i: usize = 0;
    while i < froms.len()
        invariant
            i <= froms@.len(),
            forall|k: int| 0 <= k < froms@.len() ==> #[trigger] froms@[k] + alen <= total,
            forall|k: int| 0 <= k < tos@.len() ==> #[trigger] tos@[k] + elen <= total,
            out@ == range_spans(froms@.take(i as int), tos@, alen as int, elen as int),
            forall|j: int| 0 <= j < out@.len() ==> #[trigger] in_order(total as int, out@[j]),
        decreases froms.len() - i,
    {
        let from = froms[i];
        assert(froms@[i as int] + alen <= total);
        let ghost base = out@;
        let mut j: usize = 0;
        while j < tos.len()
            invariant
                j <= tos@.len(),
                from + alen <= total,
                forall|k: int| 0 <= k < tos@.len() ==> #[trigger] tos@[k] + elen <= total,
                out@ == base + pairs_for(from, tos@.take(j as int), alen as int, elen as int),
                forall|q: int| 0 <= q < out@.len() ==> #[trigger] in_order(total as int, out@[q]),
            decreases tos.len() - j,
        {
            let to = tos[j];
            assert(tos@[j as int] + elen <= total);
            proof {
                assert(tos@.take(j + 1).drop_last() =~= tos@.take(j as int));
            }
            if to >= from + alen {
                out.push(EditPosition { start_byte: from, end_byte: Some(to + elen) });
            }
            proof {
                assert(out@ =~= base + pairs_for(from, tos@.take(j + 1), alen as int, elen as int));
            }
            j = j + 1;
        }
        proof {
            assert(tos@.take(tos@.len() as int) =~= tos@);
            assert(froms@.take(i + 1).drop_last() =~= froms@.take(i as int));
        }
        i = i + 1;
    }
    assert(froms@.take(froms@.len() as int) =~= froms@);
    out
}

fn node_positions(nodes: &Vec<Option<(usize, usize)>>, k: usize, ends_only: bool) -> (r: Vec<EditPosition>)
    ensures
        ends_only ==> r@ == node_ends(nodes@, k as int),
        !ends_only ==> r@ == node_spans(nodes@, k as int),
{
    let mut out: Vec<EditPosition> = Vec::new();
    let mut i: usize = 0;
    while i < k
        invariant
            i <= k,
            ends_only ==> out@ == node_ends(nodes@, i as int),
            !ends_only ==> out@ == node_spans(nodes@, i as int),
        decreases k - i,
    {
        if i < nodes.len() {
            if let Some((s, e)) = nodes[i] {
                if ends_only {
                    out.push(EditPosition { start_byte: e, end_byte: None });
                } else {
                    out.push(EditPosition { start_byte: s, end_byte: Some(e) });
                }
            }
        }
        proof {
            if ends_only {
                assert(out@ =~= node_ends(nodes@, i + 1));
            } else {
                assert(out@ =~= node_spans(nodes@, i + 1));
            }
        }
        i = i + 1;
    }
    out
}

fn quoted_message(label: &str, t: &str, tail: &str) -> (r: String)
    ensures
        r@ == quoted(label@, t@, tail@),
{
    let mut s = String::from_str(label);
    s.append("\"");
    s.append(t);
    s.append("\"");
    s.append(tail);
    s
}

/// The text to look up for node operations.
pub fn node_key_text(anchor: &str) -> (r: String)
    ensures
        r@ == node_key(anchor@),
{
    let lines = split_lines(trim_text(anchor));
    proof {
        reveal_strlit("");
    }
    if lines.len() > 0 {
        String::from_str(trim_text(lines[0].as_str()))
    } else {
        String::from_str(trim_text(""))
    }
}

/// Offsets of every occurrence of `needle` in `source`.
pub fn match_offsets(source: &str, needle: &str) -> (r: Vec<usize>)
    ensures
        r@ == occurrences(source.spec_bytes(), encode_utf8(needle@)),
        forall|k: int|
            0 <= k < r@.len() ==> #[trigger] r@[k] + encode_utf8(needle@).len() <= source.spec_bytes().len(),
        forall|k: int| 0 <= k < r@.len() ==> #[trigger] r@[k] + encode_utf8(needle@).len() <= usize::MAX,
{
    let h = source.as_bytes();
    let n = needle.as_bytes();
    let hl = h.len();
    assert(h@.len() == hl);
    proof {
        lemma_matches_sound(h@, n@, 0);
    }
    find_all(h, n)
}

/// Offsets where a range or a node lookup may start, or why there are none.
pub fn from_positions(source: &str, anchor: &str) -> (r: Result<Vec<usize>, String>)
    ensures
        occurrences(source.spec_bytes(), encode_utf8(anchor@)).len() == 0 ==> r is Err
            && r->Err_0@ == quoted("From text "@, anchor@, " not found in source"@),
        occurrences(source.spec_bytes(), encode_utf8(anchor@)).len() > 0 ==> r is Ok
            && r->Ok_0@ == occurrences(source.spec_bytes(), encode_utf8(anchor@)),
        r is Ok ==> forall|k: int|
            0 <= k < r->Ok_0@.len() ==> #[trigger] r->Ok_0@[k] + encode_utf8(anchor@).len() <= source.spec_bytes().len(),
{
    let ms = match_offsets(source, anchor);
    if ms.len() == 0 {
        proof {
            reveal_strlit(" not found in source");
        }
        Err(quoted_message("From text ", anchor, " not found in source"))
    } else {
        Ok(ms)
    }
}

/// Offsets where a range may end, or why there are none.
pub fn to_positions(source: &str, end: &str) -> (r: Result<Vec<usize>, String>)
    ensures
        occurrences(source.spec_bytes(), encode_utf8(end@)).len() == 0 ==> r is Err
            && r->Err_0@ == quoted("To text "@, end@, " not found in source"@),
        occurrences(source.spec_bytes(), encode_utf8(end@)).len() > 0 ==> r is Ok
            && r->Ok_0@ == occurrences(source.spec_bytes(), encode_utf8(end@)),
        r is Ok ==> forall|k: int|
            0 <= k < r->Ok_0@.len() ==> #[trigger] r->Ok_0@[k] + encode_utf8(end@).len() <= source.spec_bytes().len(),
{
    let ms = match_offsets(source, end);
    if ms.len() == 0 {
        proof {
            reveal_strlit(" not found in source");
        }
        Err(quoted_message("To text ", end, " not found in source"))
    } else {
        Ok(ms)
    }
}

/// Resolves a selector against the source. `nodes` holds, for each
/// occurrence of the node key in order, the byte range of the node that
/// covers it, if any; only node operations read it.
pub fn find_edits(
    selector: &Selector,
    source: &str,
    content: &str,
    nodes: &Vec<Option<(usize, usize)>>,
) -> (r: Result<Vec<Edit>, String>)
    ensures
        match find_edits_spec(*selector, source.spec_bytes(), content@, nodes@) {
            Ok(cands) => r is Ok && views(r->Ok_0@) == cands,
            Err(msg) => r is Err && r->Err_0@ == msg,
        },
        r is Ok && !(selector.operation is ReplaceNode || selector.operation is InsertAfterNode)
            ==> forall|i: int|
            0 <= i < r->Ok_0@.len() ==> in_order(source.spec_bytes().len() as int, (#[trigger] r->Ok_0@[i]).position),
{
    if let Err(msg) = selector.validate() {
        return Err(msg);
    }
    let anchor = selector.anchor.as_str();
    let not_found = " not found in source";
    let ghost src = source.spec_bytes();
    proof {
        reveal_strlit(" not found in source");
    }
    match selector.operation {
        Operation::InsertBefore | Operation::InsertAfter => {
            let ms = match_offsets(source, anchor);
            if ms.len() == 0 {
                return Err(quoted_message("Anchor text ", anchor, not_found));
            }
            let before = selector.operation == Operation::InsertBefore;
            let shift = if before {
                0
            } else {
                anchor.as_bytes().len()
            };
            let ps = insert_positions(&ms, shift, source.as_bytes().len());
            let edits = spaced_edits(&ps, content, before);
            proof {
                assert forall|i: int| 0 <= i < edits@.len() implies in_order(src.len() as int, (#[trigger] edits@[i]).position) by {
                    let j = choose|j: int| 0 <= j < ps@.len() && edits@[i].position == ps@[j];
                    assert(in_order(src.len() as int, ps@[j]));
                }
            }
            Ok(edits)
        },
        Operation::InsertAfterNode => {
            let key = node_key_text(anchor);
            let ks = from_positions(source, key.as_str())?;
            let ps = node_positions(nodes, ks.len(), true);
            Ok(spaced_edits(&ps, content, false))
        },
        Operation::ReplaceRange => {
            match &selector.end {
                None => Err(String::from_str("end is required for range replacement")),
                Some(end) => {
                    let end = end.as_str();
                    let froms = from_positions(source, anchor)?;
                    let tos = to_positions(source, end)?;
                    let ps = range_positions(&froms, &tos, anchor.as_bytes().len(), end.as_bytes().len(), source.as_bytes().len());
                    if ps.len() == 0 {
                        let mut msg = String::from_str("No valid range found from \"");
                        msg.append(anchor);
                        msg.append("\" to \"");
                        msg.append(end);
                        msg.append("\"");
                        return Err(msg);
                    }
                    let edits = planned_edits(&ps, content);
                    proof {
                        assert forall|i: int| 0 <= i < edits@.len() implies in_order(src.len() as int, (#[trigger] edits@[i]).position) by {
                            assert(in_order(src.len() as int, ps@[i]));
                        }
                    }
                    Ok(edits)
                },
            }
        },
        Operation::ReplaceExact => {
            let ms = match_offsets(source, anchor);
            if ms.len() == 0 {
                return Err(quoted_message("Exact text ", anchor, not_found));
            }
            let ps = exact_positions(&ms, anchor.as_bytes().len(), source.as_bytes().len());
            let edits = planned_edits(&ps, content);
            proof {
                assert forall|i: int| 0 <= i < edits@.len() implies in_order(src.len() as int, (#[trigger] edits@[i]).position) by {
                    assert(in_order(src.len() as int, ps@[i]));
                }
            }
            Ok(edits)
        },
        Operation::ReplaceNode => {
            let key = node_key_text(anchor);
            let ks = from_positions(source, key.as_str())?;
            let ps = node_positions(nodes, ks.len(), false);
            Ok(planned_edits(&ps, content))
        },
    }
}

proof fn lemma_pairs_for_empty(f: usize, tos: Seq<usize>, alen: int, elen: int)
    requires
        alen >= 0,
        forall|j: int| 0 <= j < tos.len() ==> #[trigger] tos[j] < f,
    ensures
        pairs_for(f, tos, alen, elen).len() == 0,
    decreases tos.len(),
{
    if tos.len() > 0 {
        assert(tos.last() == tos[tos.len() - 1]);
        lemma_pairs_for_empty(f, tos.drop_last(), alen, elen);
    }
}

proof fn lemma_range_spans_empty(froms: Seq<usize>, tos: Seq<usize>, alen: int, elen: int)
    requires
        alen >= 0,
        forall|i: int, j: int| 0 <= i < froms.len() && 0 <= j < tos.len() ==> #[trigger] tos[j] < #[trigger] froms[i],
    ensures
        range_spans(froms, tos, alen, elen).len() == 0,
    decreases froms.len(),
{
    if froms.len() > 0 {
        let f = froms.last();
        assert forall|j: int| 0 <= j < tos.len() implies #[trigger] tos[j] < f by {
            assert(f == froms[froms.len() - 1]);
        }
        lemma_pairs_for_empty(f, tos, alen, elen);
        assert forall|i: int, j: int| 0 <= i < froms.drop_last().len() && 0 <= j < tos.len() implies #[trigger] tos[j] < #[trigger] froms.drop_last()[i] by {
            assert(froms.drop_last()[i] == froms[i]);
        }
        lemma_range_spans_empty(froms.drop_last(), tos, alen, elen);
    }
}

/// A range replacement whose end text occurs only before every occurrence
/// of its anchor has no range to replace, and says so.
pub proof fn lemma_end_only_before_anchor(
    anchor: Seq<char>,
    end: Seq<char>,
    src: Seq<u8>,
    content: Seq<char>,
    nodes: Seq<Option<(usize, usize)>>,
)
    requires
        occurrences(src, encode_utf8(anchor)).len() > 0,
        occurrences(src, encode_utf8(end)).len() > 0,
        forall|i: int, j: int|
            0 <= i < occurrences(src, encode_utf8(anchor)).len() && 0 <= j < occurrences(src, encode_utf8(end)).len()
                ==> #[trigger] occurrences(src, encode_utf8(end))[j] < #[trigger] occurrences(src, encode_utf8(anchor))[i],
    ensures
        resolution(Operation::ReplaceRange, anchor, Some(end), src, content, nodes) == Err::<
            Seq<(EditPosition, Seq<char>)>,
            Seq<char>,
        >(no_range_message(anchor, end)),
{
    lemma_range_spans_empty(
        occurrences(src, encode_utf8(anchor)),
        occurrences(src, encode_utf8(end)),
        encode_utf8(anchor).len() as int,
        encode_utf8(end).len() as int,
    );
}

} // verus!
