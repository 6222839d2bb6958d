//! Byte-sequence utilities shared by the request parser, the router and the
//! response builder: finding a byte, splitting and joining on a separator,
//! trimming, and ASCII case folding.

use vstd::prelude::*;
use vstd::slice::{slice_subrange, slice_to_vec};

verus! {

/// Line feed.
pub const LF: u8 = 10;

/// Carriage return.
pub const CR: u8 = 13;

/// Space.
pub const SP: u8 = 32;

/// Forward slash, the path separator.
pub const SLASH: u8 = 47;

/// NUL, the padding byte of a fixed-size read buffer.
pub const NUL: u8 = 0;

/// Comma.
pub const COMMA: u8 = 44;

/// Index of the first occurrence of `b` in `s` at or after `i`; `s.len()` if
/// there is none.
pub open spec fn find_byte(s: Seq<u8>, b: u8, i: int) -> int
    decreases s.len() - i,
{
    if i < 0 || i >= s.len() {
        s.len() as int
    } else if s[i] == b {
        i
    } else {
        find_byte(s, b, i + 1)
    }
}

pub proof fn lemma_find_byte(s: Seq<u8>, b: u8, i: int)
    requires
        0 <= i <= s.len(),
    ensures
        i <= find_byte(s, b, i) <= s.len(),
        forall|k: int| i <= k < find_byte(s, b, i) ==> s[k] != b,
        find_byte(s, b, i) < s.len() ==> s[find_byte(s, b, i)] == b,
    decreases s.len() - i,
{
    if i < s.len() && s[i] != b {
        lemma_find_byte(s, b, i + 1);
    }
}

/// `find_byte` is pinned down by the absence of `b` before `j` and its
/// presence (or the end of `s`) at `j`.
pub proof fn lemma_find_byte_at(s: Seq<u8>, b: u8, i: int, j: int)
    requires
        0 <= i <= j <= s.len(),
        forall|k: int| i <= k < j ==> s[k] != b,
        j == s.len() || s[j] == b,
    ensures
        find_byte(s, b, i) == j,
    decreases j - i,
{
    if i < j {
        lemma_find_byte_at(s, b, i + 1, j);
    }
}

/// Searching a suffix finds the same occurrence, shifted.
pub proof fn lemma_find_byte_skip(s: Seq<u8>, b: u8, i: int)
    requires
        0 <= i <= s.len(),
    ensures
        find_byte(s.skip(i), b, 0) == find_byte(s, b, i) - i,
{
    lemma_find_byte(s, b, i);
    let j = find_byte(s, b, i);
    lemma_find_byte_at(s.skip(i), b, 0, j - i);
}

/// Split `s` on `sep`, keeping empty pieces, as `str::split` does: the result
/// never is empty, and splitting an empty sequence gives one empty piece.
pub open spec fn split_on(s: Seq<u8>, sep: u8) -> Seq<Seq<u8>>
    decreases s.len(),
{
    let j = find_byte(s, sep, 0);
    if j == s.len() {
        seq![s]
    } else {
        proof {
            lemma_find_byte(s, sep, 0);
        }
        seq![s.take(j)] + split_on(s.skip(j + 1), sep)
    }
}

/// Join the pieces back with `sep` between them.
pub open spec fn join_with(parts: Seq<Seq<u8>>, sep: u8) -> Seq<u8>
    decreases parts.len(),
{
    if parts.len() == 0 {
        Seq::empty()
    } else if parts.len() == 1 {
        parts[0]
    } else {
        parts[0] + seq![sep] + join_with(parts.drop_first(), sep)
    }
}

pub proof fn lemma_split_nonempty(s: Seq<u8>, sep: u8)
    ensures
        split_on(s, sep).len() >= 1,
{
}

/// A sequence free of the separator is a single piece.
pub proof fn lemma_split_no_sep(s: Seq<u8>, sep: u8)
    requires
        !s.contains(sep),
    ensures
        split_on(s, sep) == seq![s],
{
    assert forall|k: int| 0 <= k < s.len() implies s[k] != sep by {
        if s[k] == sep {
            assert(s.contains(sep));
        }
    }
    lemma_find_byte_at(s, sep, 0, s.len() as int);
}

/// Splitting `a + sep + b` where `a` is free of `sep` peels off `a`.
pub proof fn lemma_split_head(a: Seq<u8>, b: Seq<u8>, sep: u8)
    requires
        !a.contains(sep),
    ensures
        split_on(a + seq![sep] + b, sep) == seq![a] + split_on(b, sep),
{
    let s = a + seq![sep] + b;
    assert forall|k: int| 0 <= k < a.len() implies s[k] != sep by {
        if s[k] == sep {
            assert(a[k] == sep);
            assert(a.contains(sep));
        }
    }
    assert(s[a.len() as int] == sep);
    lemma_find_byte_at(s, sep, 0, a.len() as int);
    assert(s.take(a.len() as int) =~= a);
    assert(s.skip(a.len() as int + 1) =~= b);
    assert(split_on(s, sep) == seq![s.take(a.len() as int)] + split_on(s.skip(a.len() as int + 1), sep));
    assert(split_on(s, sep) =~= seq![a] + split_on(b, sep));
}

/// Joining the pieces of a split restores the sequence.
pub proof fn lemma_join_split(s: Seq<u8>, sep: u8)
    ensures
        join_with(split_on(s, sep), sep) == s,
    decreases s.len(),
{
    lemma_find_byte(s, sep, 0);
    let j = find_byte(s, sep, 0);
    if j == s.len() {
    } else {
        lemma_join_split(s.skip(j + 1), sep);
        lemma_split_nonempty(s.skip(j + 1), sep);
        let parts = seq![s.take(j)] + split_on(s.skip(j + 1), sep);
        assert(parts.drop_first() =~= split_on(s.skip(j + 1), sep));
        assert(join_with(parts, sep) == s.take(j) + seq![sep] + s.skip(j + 1));
        assert(s.take(j) + seq![sep] + s.skip(j + 1) =~= s);
    }
}

/// The views of a sequence of byte vectors.
pub open spec fn views_of(v: Seq<Vec<u8>>) -> Seq<Seq<u8>> {
    Seq::new(v.len(), |i: int| v[i]@)
}

/// First index of `b` in `s` at or after `from`; `s.len()` if there is none.
pub fn find_byte_from(s: &[u8], b: u8, from: usize) -> (j: usize)
    requires
        from <= s@.len(),
    ensures
        j == find_byte(s@, b, from as int),
{
    let n = s.len();
    let mut i = from;
    while i < n
        invariant
            from <= i <= n,
            n == s@.len(),
            find_byte(s@, b, from as int) == find_byte(s@, b, i as int),
        decreases n - i,
    {
        if s[i] == b {
            return i;
        }
        i = i + 1;
    }
    i
}

/// Split `s` on `sep`, keeping empty pieces.
pub fn split_bytes(s: &[u8], sep: u8) -> (r: Vec<Vec<u8>>)
    ensures
        views_of(r@) == split_on(s@, sep),
    decreases s@.len(),
{
    let n = s.len();
    let j = find_byte_from(s, sep, 0);
    proof {
        lemma_find_byte(s@, sep, 0);
    }
    let piece = slice_to_vec(slice_subrange(s, 0, j));
    if j == n {
        let mut r: Vec<Vec<u8>> = Vec::new();
        r.push(piece);
        proof {
            assert(views_of(r@) =~~= split_on(s@, sep));
        }
        r
    } else {
        let rest = slice_subrange(s, j + 1, n);
        proof {
            assert(rest@ =~= s@.skip(j + 1));
        }
        let mut r = split_bytes(rest, sep);
        r.insert(0, piece);
        proof {
            assert(piece@ =~= s@.take(j as int));
            assert(views_of(r@) =~~= split_on(s@, sep));
        }
        r
    }
}

/// Join `parts[from..]` with `sep` between the pieces.
pub fn join_from(parts: &Vec<Vec<u8>>, from: usize, sep: u8) -> (r: Vec<u8>)
    requires
        from <= parts@.len(),
    ensures
        r@ == join_with(views_of(parts@).skip(from as int), sep),
    decreases parts@.len() - from,
{
    let n = parts.len();
    if from == n {
        let r: Vec<u8> = Vec::new();
        proof {
            assert(views_of(parts@).skip(from as int) =~~= Seq::<Seq<u8>>::empty());
        }
        r
    } else if from + 1 == n {
        let r = slice_to_vec(parts[from].as_slice());
        proof {
            assert(views_of(parts@).skip(from as int) =~~= seq![parts@[from as int]@]);
        }
        r
    } else {
        let mut r = slice_to_vec(parts[from].as_slice());
        r.push(sep);
        let mut tail = join_from(parts, from + 1, sep);
        r.append(&mut tail);
        proof {
            let p = views_of(parts@).skip(from as int);
            assert(p.drop_first() =~~= views_of(parts@).skip(from as int + 1));
            assert(r@ =~= p[0] + seq![sep] + join_with(p.drop_first(), sep));
        }
        r
    }
}

/// Byte-wise equality of two slices.
pub fn eq_bytes(a: &[u8], b: &[u8]) -> (r: bool)
    ensures
        r == (a@ == b@),
{
    let n = a.len();
    if n != b.len() {
        return false;
    }
    let mut i: usize = 0;
    while i < n
        invariant
            i <= n,
            n == a@.len() == b@.len(),
            forall|k: int| 0 <= k < i ==> a@[k] == b@[k],
        decreases n - i,
    {
        if a[i] != b[i] {
            return false;
        }
        i = i + 1;
    }
    proof {
        assert(a@ =~= b@);
    }
    true
}

/// ASCII lower case of one byte: `A` through `Z` move to `a` through `z`.
pub open spec fn lower_byte(x: u8) -> u8 {
    if 65 <= x <= 90 {
        (x + 32) as u8
    } else {
        x
    }
}

/// ASCII lower case, byte for byte.
pub open spec fn lower_bytes(s: Seq<u8>) -> Seq<u8> {
    Seq::new(s.len(), |i: int| lower_byte(s[i]))
}

pub fn to_lower(s: &[u8]) -> (r: Vec<u8>)
    ensures
        r@ == lower_bytes(s@),
{
    let n = s.len();
    let mut r: Vec<u8> = Vec::new();
    let mut i: usize = 0;
    while i < n
        invariant
            i <= n,
            n == s@.len(),
            r@ == lower_bytes(s@).take(i as int),
        decreases n - i,
    {
        let x = s[i];
        if 65 <= x && x <= 90 {
            r.push(x + 32);
        } else {
            r.push(x);
        }
        proof {
            assert(r@ =~= lower_bytes(s@).take(i + 1));
        }
        i = i + 1;
    }
    proof {
        assert(lower_bytes(s@).take(n as int) =~= lower_bytes(s@));
    }
    r
}

/// `s` without its leading `b` bytes.
pub open spec fn drop_leading(s: Seq<u8>, b: u8) -> Seq<u8>
    decreases s.len(),
{
    if s.len() > 0 && s[0] == b {
        drop_leading(s.drop_first(), b)
    } else {
        s
    }
}

/// `s` without its trailing `b` bytes.
pub open spec fn drop_trailing(s: Seq<u8>, b: u8) -> Seq<u8>
    decreases s.len(),
{
    if s.len() > 0 && s[s.len() - 1] == b {
        drop_trailing(s.drop_last(), b)
    } else {
        s
    }
}

/// `s` without leading and trailing `b` bytes, as `str::trim_matches` leaves it.
pub open spec fn trim_matching(s: Seq<u8>, b: u8) -> Seq<u8> {
    drop_trailing(drop_leading(s, b), b)
}

pub fn trim_trailing(s: &[u8], b: u8) -> (r: Vec<u8>)
    ensures
        r@ == drop_trailing(s@, b),
{
    let mut hi = s.len();
    proof {
        assert(s@.take(s@.len() as int) =~= s@);
    }
    while hi > 0 && s[hi - 1] == b
        invariant
            hi <= s@.len(),
            drop_trailing(s@, b) == drop_trailing(s@.take(hi as int), b),
        decreases hi,
    {
        proof {
            assert(s@.take(hi as int).drop_last() =~= s@.take(hi - 1));
        }
        hi = hi - 1;
    }
    let r = slice_to_vec(slice_subrange(s, 0, hi));
    proof {
        assert(drop_trailing(s@.take(hi as int), b) == s@.take(hi as int));
    }
    r
}

pub fn trim_both(s: &[u8], b: u8) -> (r: Vec<u8>)
    ensures
        r@ == trim_matching(s@, b),
{
    let n = s.len();
    let mut lo: usize = 0;
    proof {
        assert(s@.skip(0) =~= s@);
    }
    while lo < n && s[lo] == b
        invariant
            lo <= n,
            n == s@.len(),
            drop_leading(s@, b) == drop_leading(s@.skip(lo as int), b),
        decreases n - lo,
    {
        proof {
            assert(s@.skip(lo as int).drop_first() =~= s@.skip(lo + 1));
        }
        lo = lo + 1;
    }
    proof {
        assert(drop_leading(s@.skip(lo as int), b) == s@.skip(lo as int));
    }
    let t = slice_subrange(s, lo, n);
    trim_trailing(t, b)
}

/// Appends every byte of `s` to `v`.
pub fn push_all(v: &mut Vec<u8>, s: &[u8])
    ensures
        final(v)@ == old(v)@ + s@,
{
    let n = s.len();
    let mut i: usize = 0;
    while i < n
        invariant
            i <= n,
            n == s@.len(),
            v@ == old(v)@ + s@.take(i as int),
        decreases n - i,
    {
        v.push(s[i]);
        proof {
            assert(old(v)@ + s@.take(i as int) + seq![s@[i as int]] =~= old(v)@ + s@.take(i + 1));
        }
        i = i + 1;
    }
    proof {
        assert(old(v)@ + s@.take(n as int) =~= old(v)@ + s@);
    }
}

/// The first line of `s`, as `str::lines` yields it: everything before the
/// first line feed, less one carriage return directly before that line feed;
/// the whole of `s` when no line feed is left.
pub open spec fn line_content(s: Seq<u8>) -> Seq<u8> {
    let j = find_byte(s, LF, 0);
    if j == s.len() {
        s
    } else if j >= 1 && s[j - 1] == CR {
        s.take(j - 1)
    } else {
        s.take(j)
    }
}

/// What follows the first line of `s`: everything after the first line feed,
/// or nothing when no line feed is left.
pub open spec fn line_rest(s: Seq<u8>) -> Seq<u8> {
    let j = find_byte(s, LF, 0);
    if j == s.len() {
        Seq::empty()
    } else {
        s.skip(j + 1)
    }
}

/// Reads one line out of `buf` starting at `from`: the line's bytes and the
/// index where the next line starts.
pub fn take_line(buf: &[u8], from: usize) -> (out: (Vec<u8>, usize))
    requires
        from <= buf@.len(),
    ensures
        out.0@ == line_content(buf@.skip(from as int)),
        buf@.skip(out.1 as int) == line_rest(buf@.skip(from as int)),
        from <= out.1 <= buf@.len(),
{
    let n = buf.len();
    let j = find_byte_from(buf, LF, from);
    proof {
        lemma_find_byte(buf@, LF, from as int);
        lemma_find_byte_skip(buf@, LF, from as int);
        assert(buf@.skip(from as int).len() == n - from);
    }
    if j == n {
        let line = slice_to_vec(slice_subrange(buf, from, n));
        proof {
            assert(line@ =~= buf@.skip(from as int));
            assert(buf@.skip(n as int) =~= Seq::<u8>::empty());
        }
        (line, n)
    } else if j > from && buf[j - 1] == CR {
        let line = slice_to_vec(slice_subrange(buf, from, j - 1));
        proof {
            let t = buf@.skip(from as int);
            assert(line@ =~= t.take(j - 1 - from));
            assert(buf@.skip(j + 1) =~= t.skip(j - from + 1));
        }
        (line, j + 1)
    } else {
        let line = slice_to_vec(slice_subrange(buf, from, j));
        proof {
            let t = buf@.skip(from as int);
            assert(line@ =~= t.take(j - from));
            assert(buf@.skip(j + 1) =~= t.skip(j - from + 1));
        }
        (line, j + 1)
    }
}

} // verus!
