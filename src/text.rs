//! Text primitives shared by the resolver and the reporters: literal
//! comparison, byte-offset slicing on character boundaries, occurrence
//! search and decimal rendering.
use vstd::prelude::*;
use vstd::string::StringSliceAdditionalSpecFns;
use vstd::utf8::*;

verus! {

broadcast use {encode_utf8_valid_utf8, encode_utf8_decode_utf8, is_char_boundary_start_end_of_seq, is_char_boundary_iff_not_is_continuation_byte};

/// `s` begins with `p`.
pub open spec fn has_prefix(s: Seq<char>, p: Seq<char>) -> bool {
    p.len() <= s.len() && s.subrange(0, p.len() as int) == p
}

pub fn starts_with_text(s: &str, p: &str) -> (r: bool)
    ensures
        r == has_prefix(s@, p@),
{
    let n = s.unicode_len();
    let k = p.unicode_len();
    if k > n {
        return false;
    }
    let mut i: usize = 0;
    while i < k
        invariant
            n == s@.len(),
            k == p@.len(),
            k <= n,
            i <= k,
            forall|j: int| 0 <= j < i ==> s@[j] == p@[j],
        decreases k - i,
    {
        if s.get_char(i) != p.get_char(i) {
            assert(s@.subrange(0, k as int)[i as int] != p@[i as int]);
            return false;
        }
        i = i + 1;
    }
    assert(s@.subrange(0, k as int) =~= p@);
    true
}

pub fn same_text(a: &str, b: &str) -> (r: bool)
    ensures
        r == (a@ == b@),
{
    if a.unicode_len() != b.unicode_len() {
        return false;
    }
    let r = starts_with_text(a, b);
    proof {
        if r {
            assert(a@ =~= a@.subrange(0, b@.len() as int));
        } else {
            assert(a@.subrange(0, b@.len() as int) =~= a@);
        }
    }
    r
}

/// The text that follows the first `k` characters.
pub fn drop_chars(s: &str, k: usize) -> (r: &str)
    requires
        k <= s@.len(),
    ensures
        r@ == s@.subrange(k as int, s@.len() as int),
{
    let n = s.unicode_len();
    s.substring_char(k, n)
}

/// The characters that the bytes `[start, end)` of `s` encode.
pub fn byte_slice(s: &str, start: usize, end: usize) -> (r: &str)
    requires
        start <= end <= s.spec_bytes().len(),
        is_char_boundary(s.spec_bytes(), start as int),
        is_char_boundary(s.spec_bytes(), end as int),
    ensures
        r.spec_bytes() == s.spec_bytes().subrange(start as int, end as int),
        r@ == decode_utf8(s.spec_bytes().subrange(start as int, end as int)),
{
    let ghost bytes = s.spec_bytes();
    let (_, tail) = s.split_at(start);
    let ghost tb = tail.spec_bytes();
    proof {
        assert(valid_utf8(tb));
        let k = end - start;
        if 0 < k < tb.len() {
            assert(tb[k as int] == bytes[end as int]);
            assert(!is_continuation_byte(bytes[end as int]));
        }
    }
    let (piece, _) = tail.split_at(end - start);
    proof {
        assert(piece.spec_bytes() =~= bytes.subrange(start as int, end as int));
        assert(decode_utf8(encode_utf8(piece@)) == piece@);
    }
    piece
}

/// A byte that starts a character, or the end of the text.
pub open spec fn at_char_start(h: Seq<u8>, i: int) -> bool {
    i == h.len() || (0 <= i < h.len() && !is_continuation_byte(h[i]))
}

/// `n` occurs in `h` at byte `i`.
pub open spec fn occurs_at(h: Seq<u8>, n: Seq<u8>, i: int) -> bool {
    0 <= i && i + n.len() <= h.len() && h.subrange(i, i + n.len()) == n
}

/// The non-overlapping occurrences of `n` in `h` at or after `start`,
/// found left to right; an empty `n` occurs at every character start.
pub open spec fn matches_from(h: Seq<u8>, n: Seq<u8>, start: int) -> Seq<usize>
    decreases h.len() + 1 - start,
{
    if start < 0 || start > h.len() {
        Seq::empty()
    } else if n.len() == 0 {
        (if at_char_start(h, start) {
            seq![start as usize]
        } else {
            Seq::empty()
        }) + matches_from(h, n, start + 1)
    } else if start + n.len() > h.len() {
        Seq::empty()
    } else if occurs_at(h, n, start) {
        seq![start as usize] + matches_from(h, n, start + n.len())
    } else {
        matches_from(h, n, start + 1)
    }
}

/// The offsets of every occurrence of `n` in `h`, in the order of the text.
pub open spec fn occurrences(h: Seq<u8>, n: Seq<u8>) -> Seq<usize> {
    matches_from(h, n, 0)
}

fn occurs_at_exec(h: &[u8], n: &[u8], i: usize) -> (r: bool)
    requires
        i + n@.len() <= h@.len(),
    ensures
        r == occurs_at(h@, n@, i as int),
{
    let mut k: usize = 0;
    while k < n.len()
        invariant
            i + n@.len() <= h@.len(),
            k <= n@.len(),
            h@.len() == h.len(),
            forall|j: int| 0 <= j < k ==> h@[i + j] == n@[j],
        decreases n.len() - k,
    {
        if h[i + k] != n[k] {
            assert(h@.subrange(i as int, i + n@.len())[k as int] != n@[k as int]);
            return false;
        }
        k = k + 1;
    }
    assert(h@.subrange(i as int, i + n@.len()) =~= n@);
    true
}

/// Every occurrence of `n` in `h`, left to right and without overlap.
pub fn find_all(h: &[u8], n: &[u8]) -> (r: Vec<usize>)
    ensures
        r@ == occurrences(h@, n@),
{
    let mut out: Vec<usize> = Vec::new();
    let mut i: usize = 0;
    while i <= h.len()
        invariant
            i <= h@.len(),
            out@ + matches_from(h@, n@, i as int) == occurrences(h@, n@),
        decreases h@.len() + 1 - i,
    {
        let ghost before = out@;
        if n.len() == 0 {
            if i == h.len() {
                out.push(i);
                assert(matches_from(h@, n@, i + 1) =~= Seq::<usize>::empty());
                assert(out@ =~= occurrences(h@, n@));
                return out;
            }
            if !(0x80 <= h[i] && h[i] <= 0xbf) {
                out.push(i);
                assert(out@ + matches_from(h@, n@, i + 1) =~= before + matches_from(h@, n@, i as int));
            } else {
                assert(matches_from(h@, n@, i + 1) =~= matches_from(h@, n@, i as int));
            }
            i = i + 1;
        } else {
            if n.len() > h.len() - i {
                assert(matches_from(h@, n@, i as int) =~= Seq::<usize>::empty());
                assert(out@ =~= occurrences(h@, n@));
                return out;
            }
            if occurs_at_exec(h, n, i) {
                out.push(i);
                assert(out@ + matches_from(h@, n@, i + n@.len()) =~= before + matches_from(h@, n@, i as int));
                i = i + n.len();
            } else {
                i = i + 1;
            }
        }
    }
    assert(matches_from(h@, n@, i as int) =~= Seq::<usize>::empty());
    assert(out@ =~= occurrences(h@, n@));
    out
}

/// The decimal digits of `n`, most significant first.
pub open spec fn decimal(n: nat) -> Seq<char>
    decreases n,
{
    if n < 10 {
        seq![digit_char(n)]
    } else {
        decimal(n / 10) + seq![digit_char(n % 10)]
    }
}

pub open spec fn digit_char(d: nat) -> char {
    if d == 0 { '0' } else if d == 1 { '1' } else if d == 2 { '2' } else if d == 3 { '3' }
    else if d == 4 { '4' } else if d == 5 { '5' } else if d == 6 { '6' } else if d == 7 { '7' }
    else if d == 8 { '8' } else { '9' }
}

fn digit(d: usize) -> (r: char)
    requires
        d < 10,
    ensures
        r == digit_char(d as nat),
{
    if d == 0 { '0' } else if d == 1 { '1' } else if d == 2 { '2' } else if d == 3 { '3' }
    else if d == 4 { '4' } else if d == 5 { '5' } else if d == 6 { '6' } else if d == 7 { '7' }
    else if d == 8 { '8' } else { '9' }
}

/// Renders `n` in decimal, as `Display` does for unsigned integers.
pub fn decimal_text(n: usize) -> (r: String)
    ensures
        r@ == decimal(n as nat),
    decreases n,
{
    if n < 10 {
        let mut s = String::new();
        s.append(char_str(digit(n)).as_str());
        s
    } else {
        let mut s = decimal_text(n / 10);
        s.append(char_str(digit(n % 10)).as_str());
        s
    }
}

/// Left-pads `s` with spaces to `width` characters.
pub open spec fn pad_left(s: Seq<char>, width: nat) -> Seq<char> {
    if s.len() >= width {
        s
    } else {
        Seq::new((width - s.len()) as nat, |i: int| ' ') + s
    }
}

pub fn pad_left_text(s: String, width: usize) -> (r: String)
    ensures
        r@ == pad_left(s@, width as nat),
{
    let n = s.as_str().unicode_len();
    if n >= width {
        return s;
    }
    let mut out = String::new();
    let mut i: usize = 0;
    while i < width - n
        invariant
            n < width,
            i <= width - n,
            out@ =~= Seq::new(i as nat, |j: int| ' '),
        decreases width - n - i,
    {
        out.append(" ");
        proof {
            reveal_strlit(" ");
        }
        i = i + 1;
    }
    out.append(s.as_str());
    out
}

/// The one-character text holding `c`.
#[verifier::external_body]
pub(crate) fn char_str(c: char) -> (r: String)
    ensures
        r@ == seq![c],
{
    String::from(c)
}

/// The characters of `s`, one element each.
#[verifier::external_body]
pub(crate) fn char_vec(s: &str) -> (r: Vec<char>)
    ensures
        r@ == s@,
{
    s.chars().collect()
}

/// The text made of `cs[from..to]`.
pub fn string_of(cs: &Vec<char>, from: usize, to: usize) -> (r: String)
    requires
        from <= to <= cs@.len(),
    ensures
        r@ == cs@.subrange(from as int, to as int),
{
    let mut out = String::new();
    let mut i: usize = from;
    while i < to
        invariant
            from <= i <= to <= cs@.len(),
            out@ == cs@.subrange(from as int, i as int),
        decreases to - i,
    {
        out.append(char_str(cs[i]).as_str());
        assert(cs@.subrange(from as int, i + 1) =~= cs@.subrange(from as int, i as int) + seq![cs@[i as int]]);
        i = i + 1;
    }
    out
}

/// Index of the first newline at or after `i`, or the length.
pub open spec fn next_newline(cs: Seq<char>, i: int) -> int
    decreases cs.len() - i,
{
    if i >= cs.len() {
        cs.len() as int
    } else if cs[i] == '\n' {
        i
    } else {
        next_newline(cs, i + 1)
    }
}

/// The lines from index `i` on, as `str::lines` yields them: split at each
/// newline, a carriage return before a newline dropped, no empty line after
/// a final newline.
pub open spec fn lines_from(cs: Seq<char>, i: int) -> Seq<Seq<char>>
    decreases cs.len() + 1 - i,
{
    let j = next_newline(cs, i);
    if i < 0 || i >= cs.len() || j < i || j > cs.len() {
        Seq::empty()
    } else {
        let e = if j < cs.len() && j > i && cs[j - 1] == '\r' {
            j - 1
        } else {
            j
        };
        seq![cs.subrange(i, e)] + lines_from(cs, j + 1)
    }
}

pub open spec fn lines_of(cs: Seq<char>) -> Seq<Seq<char>> {
    lines_from(cs, 0)
}

proof fn lemma_next_newline(cs: Seq<char>, i: int)
    requires
        0 <= i <= cs.len(),
    ensures
        i <= next_newline(cs, i) <= cs.len(),
        next_newline(cs, i) < cs.len() ==> cs[next_newline(cs, i)] == '\n',
        forall|k: int| i <= k < next_newline(cs, i) ==> cs[k] != '\n',
    decreases cs.len() - i,
{
    if i < cs.len() && cs[i] != '\n' {
        lemma_next_newline(cs, i + 1);
    }
}

/// Splits a text into lines as `str::lines` does.
pub fn split_lines(s: &str) -> (r: Vec<String>)
    ensures
        r@.len() == lines_of(s@).len(),
        forall|k: int| 0 <= k < r@.len() ==> (#[trigger] r@[k])@ == lines_of(s@)[k],
{
    let cs = char_vec(s);
    let n = cs.len();
    let mut out: Vec<String> = Vec::new();
    let mut i: usize = 0;
    while i < n
        invariant
            n == cs@.len(),
            cs@ == s@,
            i <= n,
            out@.len() + lines_from(cs@, i as int).len() == lines_of(cs@).len(),
            forall|k: int| 0 <= k < out@.len() ==> (#[trigger] out@[k])@ == lines_of(cs@)[k],
            forall|k: int| 0 <= k < lines_from(cs@, i as int).len() ==> lines_from(cs@, i as int)[k] == lines_of(cs@)[out@.len() + k],
        decreases n - i,
    {
        let mut j: usize = i;
        while j < n && cs[j] != '\n'
            invariant
                i <= j <= n,
                n == cs@.len(),
                next_newline(cs@, i as int) == next_newline(cs@, j as int),
            decreases n - j,
        {
            j = j + 1;
        }
        let e = if j < n && j > i && cs[j - 1] == '\r' {
            j - 1
        } else {
            j
        };
        proof {
            lemma_next_newline(cs@, i as int);
        }
        let ghost rest = lines_from(cs@, i as int);
        assert(rest == seq![cs@.subrange(i as int, e as int)] + lines_from(cs@, j + 1));
        let line = string_of(&cs, i, e);
        let ghost k0 = out@.len();
        out.push(line);
        proof {
            assert(rest[0] == lines_of(cs@)[k0 as int]);
            assert forall|k: int| 0 <= k < lines_from(cs@, j + 1).len() implies #[trigger] lines_from(cs@, j + 1)[k] == lines_of(cs@)[out@.len() + k] by {
                assert(lines_from(cs@, j + 1)[k] == rest[k + 1]);
            }
        }
        if j == n {
            assert(lines_from(cs@, j + 1) =~= Seq::<Seq<char>>::empty());
            return out;
        }
        i = j + 1;
    }
    out
}

/// Index of the first character at or after `i` that is not white space.
pub open spec fn skip_white(s: Seq<char>, i: int) -> int
    decreases s.len() - i,
{
    if i < 0 || i >= s.len() || !crate::selector::is_white_space(s[i]) {
        i
    } else {
        skip_white(s, i + 1)
    }
}

/// End of the text once trailing white space down to `lo` is dropped.
pub open spec fn skip_white_back(s: Seq<char>, j: int, lo: int) -> int
    decreases j - lo,
{
    if j <= lo || j > s.len() || !crate::selector::is_white_space(s[j - 1]) {
        j
    } else {
        skip_white_back(s, j - 1, lo)
    }
}

/// The text without leading and trailing white space, as `str::trim`.
pub open spec fn trimmed(s: Seq<char>) -> Seq<char> {
    let a = skip_white(s, 0);
    s.subrange(a, skip_white_back(s, s.len() as int, a))
}

proof fn lemma_skip_white(s: Seq<char>, i: int)
    requires
        0 <= i <= s.len(),
    ensures
        i <= skip_white(s, i) <= s.len(),
    decreases s.len() - i,
{
    if i < s.len() && crate::selector::is_white_space(s[i]) {
        lemma_skip_white(s, i + 1);
    }
}

proof fn lemma_skip_white_back(s: Seq<char>, j: int, lo: int)
    requires
        0 <= lo <= j <= s.len(),
    ensures
        lo <= skip_white_back(s, j, lo) <= j,
    decreases j - lo,
{
    if j > lo && crate::selector::is_white_space(s[j - 1]) {
        lemma_skip_white_back(s, j - 1, lo);
    }
}

/// `s` without leading and trailing white space.
pub fn trim_text(s: &str) -> (r: &str)
    ensures
        r@ == trimmed(s@),
{
    let cs = char_vec(s);
    let n = cs.len();
    let mut a: usize = 0;
    proof {
        lemma_skip_white(s@, 0);
    }
    while a < n && crate::selector::is_white_space_char(cs[a])
        invariant
            a <= n,
            n == s@.len(),
            cs@ == s@,
            skip_white(s@, a as int) == skip_white(s@, 0),
        decreases n - a,
    {
        a = a + 1;
    }
    let mut b: usize = n;
    proof {
        lemma_skip_white_back(s@, n as int, a as int);
    }
    while b > a && crate::selector::is_white_space_char(cs[b - 1])
        invariant
            a <= b <= n,
            n == s@.len(),
            cs@ == s@,
            skip_white(s@, 0) == a,
            skip_white_back(s@, b as int, a as int) == skip_white_back(s@, n as int, a as int),
        decreases b - a,
    {
        b = b - 1;
    }
    s.substring_char(a, b)
}

/// Every reported occurrence is one, and lies within the text.
pub proof fn lemma_matches_sound(h: Seq<u8>, n: Seq<u8>, start: int)
    requires
        0 <= start,
        h.len() <= usize::MAX,
    ensures
        forall|k: int|
            0 <= k < matches_from(h, n, start).len() ==> start <= #[trigger] matches_from(h, n, start)[k]
                && matches_from(h, n, start)[k] + n.len() <= h.len()
                && (n.len() > 0 ==> occurs_at(h, n, matches_from(h, n, start)[k] as int)),
    decreases h.len() + 1 - start,
{
    if start > h.len() {
    } else if n.len() == 0 {
        lemma_matches_sound(h, n, start + 1);
        let rest = matches_from(h, n, start + 1);
        let head: Seq<usize> = if at_char_start(h, start) { seq![start as usize] } else { Seq::empty() };
        assert(matches_from(h, n, start) == head + rest);
        assert forall|k: int| 0 <= k < matches_from(h, n, start).len() implies start <= #[trigger] matches_from(h, n, start)[k]
            && matches_from(h, n, start)[k] + n.len() <= h.len() by {
            if k >= head.len() {
                assert(matches_from(h, n, start)[k] == rest[k - head.len()]);
            }
        }
    } else if start + n.len() > h.len() {
    } else if occurs_at(h, n, start) {
        lemma_matches_sound(h, n, start + n.len());
        let rest = matches_from(h, n, start + n.len());
        assert forall|k: int| 0 <= k < matches_from(h, n, start).len() implies start <= #[trigger] matches_from(h, n, start)[k]
            && matches_from(h, n, start)[k] + n.len() <= h.len()
            && (n.len() > 0 ==> occurs_at(h, n, matches_from(h, n, start)[k] as int)) by {
            if k >= 1 {
                assert(matches_from(h, n, start)[k] == rest[k - 1]);
            }
        }
    } else {
        lemma_matches_sound(h, n, start + 1);
    }
}

/// How many opening brackets, braces and parentheses a text holds: a bound
/// on how deeply anything in it can nest.
pub open spec fn opener_count(cs: Seq<char>) -> nat
    decreases cs.len(),
{
    if cs.len() == 0 {
        0
    } else {
        opener_count(cs.drop_last()) + if cs.last() == '[' || cs.last() == '{' || cs.last() == '(' {
            1nat
        } else {
            0nat
        }
    }
}

pub fn count_openers(s: &str) -> (r: usize)
    ensures
        r == opener_count(s@),
{
    let cs = char_vec(s);
    let mut n: usize = 0;
    let mut i: usize = 0;
    while i < cs.len()
        invariant
            i <= cs@.len(),
            cs@ == s@,
            n == opener_count(cs@.take(i as int)),
            n <= i,
        decreases cs.len() - i,
    {
        assert(cs@.take(i + 1).drop_last() =~= cs@.take(i as int));
        if cs[i] == '[' || cs[i] == '{' || cs[i] == '(' {
            n = n + 1;
        }
        i = i + 1;
    }
    assert(cs@.take(cs@.len() as int) =~= cs@);
    n
}

} // verus!
