//! Character-level text handling: whitespace trimming, line splitting and
//! decimal rendering, stated over sequences of characters.
use vstd::prelude::*;

verus! {

/// The characters of `s`, in order.
pub fn chars_of(s: &str) -> (v: Vec<char>)
    ensures
        v@ == s@,
{
    let mut v: Vec<char> = Vec::new();
    for c in it: s.chars()
        invariant
            v@ == it.seq().take(it.index() as int),
            it.seq() == s@,
    {
        v.push(c);
    }
    assert(v@ =~= s@);
    v
}

/// The string made of the characters of `v`, in order (std's `collect`).
#[verifier::external_body]
pub(crate) fn string_from_chars(v: &Vec<char>) -> (s: String)
    ensures
        s@ == v@,
{
    v.iter().collect()
}

/// Unicode `White_Space`, the set that `char::is_whitespace` tests.
pub open spec fn is_whitespace_spec(c: char) -> bool {
    let u = c as u32;
    ||| u == 0x20
    ||| 0x09 <= u <= 0x0d
    ||| u == 0x85
    ||| u == 0xa0
    ||| u == 0x1680
    ||| 0x2000 <= u <= 0x200a
    ||| u == 0x2028
    ||| u == 0x2029
    ||| u == 0x202f
    ||| u == 0x205f
    ||| u == 0x3000
}

pub fn is_whitespace(c: char) -> (b: bool)
    ensures
        b == is_whitespace_spec(c),
{
    let u = c as u32;
    u == 0x20 || (0x09 <= u && u <= 0x0d) || u == 0x85 || u == 0xa0 || u == 0x1680 || (0x2000
        <= u && u <= 0x200a) || u == 0x2028 || u == 0x2029 || u == 0x202f || u == 0x205f || u
        == 0x3000
}

/// `s` without its leading whitespace.
pub open spec fn trim_start_spec(s: Seq<char>) -> Seq<char>
    decreases s.len(),
{
    if s.len() > 0 && is_whitespace_spec(s[0]) {
        trim_start_spec(s.drop_first())
    } else {
        s
    }
}

/// `s` without its trailing whitespace.
pub open spec fn trim_end_spec(s: Seq<char>) -> Seq<char>
    decreases s.len(),
{
    if s.len() > 0 && is_whitespace_spec(s.last()) {
        trim_end_spec(s.drop_last())
    } else {
        s
    }
}

/// `s` without leading and trailing whitespace (`str::trim`).
pub open spec fn trim_spec(s: Seq<char>) -> Seq<char> {
    trim_end_spec(trim_start_spec(s))
}

/// The characters of `v[from..to]` with whitespace removed from both ends.
pub fn trim(v: &Vec<char>, from: usize, to: usize) -> (r: Vec<char>)
    requires
        from <= to <= v@.len(),
    ensures
        r@ == trim_spec(v@.subrange(from as int, to as int)),
{
    let ghost whole = v@.subrange(from as int, to as int);
    let mut start: usize = from;
    while start < to && is_whitespace(v[start])
        invariant
            from <= start <= to <= v@.len(),
            whole == v@.subrange(from as int, to as int),
            trim_start_spec(whole) == trim_start_spec(v@.subrange(start as int, to as int)),
        decreases to - start,
    {
        assert(v@.subrange(start as int, to as int).drop_first() =~= v@.subrange(
            start + 1,
            to as int,
        ));
        start = start + 1;
    }
    assert(trim_start_spec(whole) == v@.subrange(start as int, to as int));
    let mut end: usize = to;
    while end > start && is_whitespace(v[end - 1])
        invariant
            from <= start <= end <= to <= v@.len(),
            trim_spec(whole) == trim_end_spec(v@.subrange(start as int, end as int)),
        decreases end - start,
    {
        assert(v@.subrange(start as int, end as int).drop_last() =~= v@.subrange(
            start as int,
            end - 1,
        ));
        end = end - 1;
    }
    assert(trim_spec(whole) == v@.subrange(start as int, end as int));
    let mut r: Vec<char> = Vec::new();
    let mut i: usize = start;
    while i < end
        invariant
            start <= i <= end <= v@.len(),
            r@ == v@.subrange(start as int, i as int),
        decreases end - i,
    {
        r.push(v[i]);
        assert(r@ =~= v@.subrange(start as int, i + 1));
        i = i + 1;
    }
    r
}

/// The index of the first `c` in `s`, or `s.len()` when there is none.
pub open spec fn index_of(s: Seq<char>, c: char) -> int
    decreases s.len(),
{
    if s.len() == 0 {
        0
    } else if s[0] == c {
        0
    } else {
        1 + index_of(s.drop_first(), c)
    }
}

pub proof fn lemma_index_of(s: Seq<char>, c: char)
    ensures
        0 <= index_of(s, c) <= s.len(),
        index_of(s, c) < s.len() ==> s[index_of(s, c)] == c,
        forall|j: int| 0 <= j < index_of(s, c) ==> s[j] != c,
    decreases s.len(),
{
    if s.len() > 0 && s[0] != c {
        lemma_index_of(s.drop_first(), c);
        assert forall|j: int| 0 <= j < index_of(s, c) implies s[j] != c by {
            if j > 0 {
                assert(s[j] == s.drop_first()[j - 1]);
            }
        }
    }
}

/// The first index `i >= from` with `v[i] == c`, or `v.len()`.
pub fn find_char(v: &Vec<char>, from: usize, c: char) -> (i: usize)
    requires
        from <= v@.len(),
    ensures
        i as int == from + index_of(v@.skip(from as int), c),
{
    let mut i: usize = from;
    proof {
        lemma_index_of(v@.skip(from as int), c);
    }
    while i < v.len() && v[i] != c
        invariant
            from <= i <= v@.len(),
            index_of(v@.skip(from as int), c) == (i - from) + index_of(v@.skip(i as int), c),
        decreases v@.len() - i,
    {
        assert(v@.skip(i as int).drop_first() =~= v@.skip(i + 1));
        i = i + 1;
    }
    i
}

/// One line of `str::lines`: a trailing carriage return is dropped when the
/// line was ended by a newline.
pub open spec fn strip_cr(line: Seq<char>) -> Seq<char> {
    if line.len() > 0 && line.last() == '\r' {
        line.drop_last()
    } else {
        line
    }
}

/// The lines of `s` as `str::lines` yields them: split at each newline, a
/// final newline ends the last line rather than starting an empty one.
pub open spec fn lines_spec(s: Seq<char>) -> Seq<Seq<char>>
    decreases s.len(),
{
    if s.len() == 0 {
        Seq::empty()
    } else {
        let i = index_of(s, '\n');
        if i >= s.len() {
            seq![s]
        } else {
            proof {
                lemma_index_of(s, '\n');
            }
            seq![strip_cr(s.take(i))] + lines_spec(s.skip(i + 1))
        }
    }
}

/// The lines of `v`, as `str::lines` yields them.
pub fn lines(v: &Vec<char>) -> (r: Vec<Vec<char>>)
    ensures
        r@.len() == lines_spec(v@).len(),
        forall|k: int| 0 <= k < r@.len() ==> #[trigger] r@[k]@ == lines_spec(v@)[k],
{
    let mut r: Vec<Vec<char>> = Vec::new();
    let mut pos: usize = 0;
    assert(v@.skip(0) =~= v@);
    assert(r@.map_values(|l: Vec<char>| l@) =~= Seq::<Seq<char>>::empty());
    while pos < v.len()
        invariant
            pos <= v@.len(),
            lines_spec(v@) =~= r@.map_values(|l: Vec<char>| l@) + lines_spec(v@.skip(pos as int)),
        decreases v@.len() - pos,
    {
        let end = find_char(v, pos, '\n');
        proof {
            lemma_index_of(v@.skip(pos as int), '\n');
        }
        let mut line: Vec<char> = Vec::new();
        let mut i: usize = pos;
        while i < end
            invariant
                pos <= i <= end <= v@.len(),
                line@ == v@.subrange(pos as int, i as int),
            decreases end - i,
        {
            line.push(v[i]);
            assert(line@ =~= v@.subrange(pos as int, i + 1));
            i = i + 1;
        }
        let ghost rest = v@.skip(pos as int);
        assert(rest.take(end - pos) =~= line@);
        if end < v.len() {
            if line.len() > 0 && line[line.len() - 1] == '\r' {
                line.pop();
            }
            assert(rest.skip(end - pos + 1) =~= v@.skip(end + 1));
            r.push(line);
            pos = end + 1;
        } else {
            assert(rest =~= line@);
            r.push(line);
            pos = v.len();
            assert(v@.skip(pos as int) =~= Seq::<char>::empty());
        }
    }
    assert(v@.skip(pos as int) =~= Seq::<char>::empty());
    r
}

/// The decimal digit for `d < 10`.
pub open spec fn digit_char(d: nat) -> char {
    if d == 0 { '0' }
    else if d == 1 { '1' }
    else if d == 2 { '2' }
    else if d == 3 { '3' }
    else if d == 4 { '4' }
    else if d == 5 { '5' }
    else if d == 6 { '6' }
    else if d == 7 { '7' }
    else if d == 8 { '8' }
    else { '9' }
}

/// The decimal rendering of `n`, without leading zeros.
pub open spec fn decimal_spec(n: nat) -> Seq<char>
    decreases n,
{
    if n < 10 {
        seq![digit_char(n)]
    } else {
        decimal_spec(n / 10) + seq![digit_char(n % 10)]
    }
}

fn digit(d: u64) -> (c: char)
    requires
        d < 10,
    ensures
        c == digit_char(d as nat),
{
    if d == 0 { '0' }
    else if d == 1 { '1' }
    else if d == 2 { '2' }
    else if d == 3 { '3' }
    else if d == 4 { '4' }
    else if d == 5 { '5' }
    else if d == 6 { '6' }
    else if d == 7 { '7' }
    else if d == 8 { '8' }
    else { '9' }
}

/// Append the decimal rendering of `n` to `out`.
pub fn push_decimal(out: &mut Vec<char>, n: u64)
    ensures
        final(out)@ == old(out)@ + decimal_spec(n as nat),
    decreases n,
{
    if n < 10 {
        out.push(digit(n));
    } else {
        push_decimal(out, n / 10);
        out.push(digit(n % 10));
    }
    assert(final(out)@ =~= old(out)@ + decimal_spec(n as nat));
}

/// Append the characters of `s` to `out`.
pub fn push_str(out: &mut Vec<char>, s: &str)
    ensures
        final(out)@ == old(out)@ + s@,
{
    let tail = chars_of(s);
    let mut i: usize = 0;
    let ghost start = out@;
    while i < tail.len()
        invariant
            i <= tail@.len(),
            tail@ == s@,
            out@ == start + tail@.take(i as int),
        decreases tail@.len() - i,
    {
        out.push(tail[i]);
        assert(out@ =~= start + tail@.take(i + 1));
        i = i + 1;
    }
    assert(tail@.take(i as int) =~= tail@);
}

/// Append `s` to `out`.
pub fn push_chars(out: &mut Vec<char>, s: &Vec<char>)
    ensures
        final(out)@ == old(out)@ + s@,
{
    let mut i: usize = 0;
    let ghost start = out@;
    while i < s.len()
        invariant
            i <= s@.len(),
            out@ == start + s@.take(i as int),
        decreases s@.len() - i,
    {
        out.push(s[i]);
        assert(out@ =~= start + s@.take(i + 1));
        i = i + 1;
    }
    assert(s@.take(i as int) =~= s@);
}

/// What `{:?}` prints for a string: std's quoted and escaped rendering.
pub uninterp spec fn debug_quoted(s: Seq<char>) -> Seq<char>;

/// Debug-format `s` (std's `format!("{:?}", s)`): the text is named
/// `debug_quoted`; only that it is a function of `s` is claimed.
#[verifier::external_body]
pub(crate) fn debug_string(s: &Vec<char>) -> (r: Vec<char>)
    ensures
        r@ == debug_quoted(s@),
{
    let text: String = s.iter().collect();
    format!("{:?}", text).chars().collect()
}

} // verus!
