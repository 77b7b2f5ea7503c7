//! Parser for the `desc` record file format.
//!
//! A record container is plain text holding `(tag, value)` blocks: a tag
//! stands alone on a line as `%TAG%` (the tag is one or more non-`%`
//! characters), and the value spans zero or more lines, from the next line
//! up to, but not including, the first following blank line, with the
//! newline just before that blank line stripped.  Text before the first tag
//! line is ignored, and malformed input simply yields fewer records;
//! parsing never fails.

use vstd::prelude::*;

verus! {

/// Index of the first `'\n'` at or after `i`, or `s.len()` if there is none.
pub open spec fn find_nl(s: Seq<char>, i: int) -> int
    decreases s.len() - i
        when 0 <= i <= s.len()
{
    if i >= s.len() {
        s.len() as int
    } else if s[i] == '\n' {
        i
    } else {
        find_nl(s, i + 1)
    }
}

/// First line start at or after `i` that begins a blank line — a line
/// whose first character is a newline — given as the index of that
/// newline, or `s.len()` if there is none.  `i` itself counts as a line
/// start; a final line without a newline ends the search.
pub open spec fn find_blank_line(s: Seq<char>, i: int) -> int
    decreases s.len() - i
        when 0 <= i <= s.len()
{
    if i >= s.len() {
        s.len() as int
    } else if s[i] == '\n' {
        i
    } else {
        let e = find_nl(s, i);
        proof {
            lemma_find_nl(s, i);
        }
        if e >= s.len() {
            s.len() as int
        } else {
            find_blank_line(s, e + 1)
        }
    }
}

pub proof fn lemma_find_nl(s: Seq<char>, i: int)
    requires
        0 <= i <= s.len(),
    ensures
        i <= find_nl(s, i) <= s.len(),
        find_nl(s, i) < s.len() ==> s[find_nl(s, i)] == '\n',
        forall|j: int| i <= j < find_nl(s, i) ==> s[j] != '\n',
    decreases s.len() - i,
{
    if i >= s.len() {
    } else if s[i] == '\n' {
    } else {
        lemma_find_nl(s, i + 1);
    }
}

/// `find_nl` returns `k` exactly when no newline sits in `[i, k)` and `k` is
/// either the end of the text or a newline.
pub proof fn lemma_find_nl_is(s: Seq<char>, i: int, k: int)
    requires
        0 <= i <= k <= s.len(),
        forall|j: int| i <= j < k ==> s[j] != '\n',
        k == s.len() || s[k] == '\n',
    ensures
        find_nl(s, i) == k,
    decreases k - i,
{
    if i < k {
        lemma_find_nl_is(s, i + 1, k);
    }
}

pub proof fn lemma_find_blank_line(s: Seq<char>, i: int)
    requires
        0 <= i <= s.len(),
    ensures
        i <= find_blank_line(s, i) <= s.len(),
        find_blank_line(s, i) < s.len() ==> s[find_blank_line(s, i)] == '\n',
        i < find_blank_line(s, i) < s.len() ==> s[find_blank_line(s, i) - 1] == '\n',
    decreases s.len() - i,
{
    if i >= s.len() {
    } else if s[i] == '\n' {
    } else {
        let e = find_nl(s, i);
        lemma_find_nl(s, i);
        if e < s.len() {
            lemma_find_blank_line(s, e + 1);
        }
    }
}

/// `find_blank_line` returns `k` exactly when `k` starts a blank line and
/// no line start in `[i, k)` does.
pub proof fn lemma_find_blank_line_is(s: Seq<char>, i: int, k: int)
    requires
        0 <= i <= k < s.len(),
        s[k] == '\n',
        k == i || s[k - 1] == '\n',
        forall|j: int| i <= j < k ==> !((#[trigger] s[j]) == '\n' && (j == i || s[j - 1] == '\n')),
    ensures
        find_blank_line(s, i) == k,
    decreases k - i,
{
    if i < k {
        assert(s[i] != '\n');
        let e = find_nl(s, i);
        lemma_find_nl(s, i);
        assert(e <= k) by {
            if e > k {
                assert(s[k] != '\n');
            }
        }
        assert(e < k) by {
            if e == k {
                assert(s[k - 1] != '\n');
            }
        }
        assert forall|j: int|
            e + 1 <= j < k implies !((#[trigger] s[j]) == '\n' && (j == e + 1 || s[j - 1]
            == '\n')) by {
            if j == e + 1 {
                assert(s[j - 1] == '\n');
            }
        }
        lemma_find_blank_line_is(s, e + 1, k);
    }
}

/// The line `s[i..e]` (with `s[e]` its terminating newline) is a tag line:
/// `%TAG%` with a non-empty tag holding no `%`.
pub open spec fn is_tag_line(s: Seq<char>, i: int, e: int) -> bool {
    &&& e < s.len()
    &&& i + 3 <= e
    &&& s[i] == '%'
    &&& s[e - 1] == '%'
    &&& forall|j: int| i + 1 <= j < e - 1 ==> s[j] != '%'
}

/// The records of the container text `s` from position `i` on, in document
/// order.  A record starts at a tag line; its value spans zero or more
/// lines, up to but not including the first blank line after the tag line,
/// with the trailing newline before that blank line stripped.  A tag line
/// with no blank line after it ends the sequence, as does running out of
/// text.
pub open spec fn spec_parse_from(s: Seq<char>, i: int) -> Seq<(Seq<char>, Seq<char>)>
    decreases s.len() - i
        when 0 <= i <= s.len()
{
    if i >= s.len() {
        Seq::empty()
    } else {
        let e = find_nl(s, i);
        proof {
            lemma_find_nl(s, i);
            if e < s.len() {
                lemma_find_blank_line(s, e + 1);
            }
        }
        if is_tag_line(s, i, e) {
            let q = find_blank_line(s, e + 1);
            if q < s.len() {
                let v = if q == e + 1 {
                    Seq::<char>::empty()
                } else {
                    s.subrange(e + 1, q - 1)
                };
                seq![(s.subrange(i + 1, e - 1), v)] + spec_parse_from(s, q + 1)
            } else {
                Seq::empty()
            }
        } else {
            if e >= s.len() {
                Seq::empty()
            } else {
                spec_parse_from(s, e + 1)
            }
        }
    }
}

/// The full record sequence of a container text.
pub open spec fn spec_records(s: Seq<char>) -> Seq<(Seq<char>, Seq<char>)> {
    spec_parse_from(s, 0)
}

/// Parsing does not look at text before its start position: parsing a
/// concatenation from where the second part begins sees the second part only.
pub proof fn lemma_find_nl_shift(a: Seq<char>, b: Seq<char>, k: int)
    requires
        0 <= k <= b.len(),
    ensures
        find_nl(a + b, a.len() + k) == a.len() + find_nl(b, k),
{
    lemma_find_nl(b, k);
    let m = find_nl(b, k);
    let s = a + b;
    assert forall|j: int| a.len() + k <= j < a.len() + m implies s[j] != '\n' by {
        assert(s[j] == b[j - a.len()]);
    }
    lemma_find_nl_is(s, a.len() + k, a.len() + m);
}

pub proof fn lemma_find_blank_line_shift(a: Seq<char>, b: Seq<char>, k: int)
    requires
        0 <= k <= b.len(),
    ensures
        find_blank_line(a + b, a.len() + k) == a.len() + find_blank_line(b, k),
    decreases b.len() - k,
{
    let s = a + b;
    if k >= b.len() {
    } else {
        assert(s[a.len() + k] == b[k]);
        if b[k] != '\n' {
            lemma_find_nl_shift(a, b, k);
            lemma_find_nl(b, k);
            let e = find_nl(b, k);
            if e < b.len() {
                lemma_find_blank_line_shift(a, b, e + 1);
            }
        }
    }
}

pub proof fn lemma_parse_shift(a: Seq<char>, b: Seq<char>, k: int)
    requires
        0 <= k <= b.len(),
    ensures
        spec_parse_from(a + b, a.len() + k) == spec_parse_from(b, k),
    decreases b.len() - k,
{
    let s = a + b;
    let al = a.len() as int;
    if k >= b.len() {
    } else {
        lemma_find_nl_shift(a, b, k);
        lemma_find_nl(b, k);
        let e = find_nl(b, k);
        assert forall|j: int| al + k + 1 <= j < al + e - 1 implies s[j] == b[j - al] by {}
        assert forall|j: int| k + 1 <= j < e - 1 implies b[j] == s[j + al] by {}
        assert(is_tag_line(s, al + k, al + e) == is_tag_line(b, k, e)) by {
            if is_tag_line(b, k, e) {
                assert forall|j: int| al + k + 1 <= j < al + e - 1 implies s[j] != '%' by {
                    assert(b[j - al] != '%');
                }
            }
            if is_tag_line(s, al + k, al + e) {
                assert forall|j: int| k + 1 <= j < e - 1 implies b[j] != '%' by {
                    assert(s[j + al] != '%');
                }
            }
        }
        if is_tag_line(b, k, e) {
            lemma_find_blank_line_shift(a, b, e + 1);
            lemma_find_blank_line(b, e + 1);
            let q = find_blank_line(b, e + 1);
            if q < b.len() {
                lemma_parse_shift(a, b, q + 1);
                assert(s.subrange(al + k + 1, al + e - 1) =~= b.subrange(k + 1, e - 1));
                if q > e + 1 {
                    assert(s.subrange(al + e + 1, al + q - 1) =~= b.subrange(e + 1, q - 1));
                }
            }
        } else {
            if e < b.len() {
                lemma_parse_shift(a, b, e + 1);
            }
        }
    }
}

/// A tag the text grammar can carry: non-empty, free of `%` and newlines.
pub open spec fn valid_tag(t: Seq<char>) -> bool {
    t.len() > 0 && forall|i: int| 0 <= i < t.len() ==> #[trigger] t[i] != '%' && t[i] != '\n'
}

/// A value the text grammar can carry: holds no blank-line separator and
/// neither starts nor ends with a newline (either would put a blank line
/// inside the encoded record).
pub open spec fn valid_value(v: Seq<char>) -> bool {
    &&& forall|i: int| 0 <= i && i + 1 < v.len() ==> !(#[trigger] v[i] == '\n' && v[i + 1] == '\n')
    &&& v.len() > 0 ==> v[0] != '\n' && v[v.len() - 1] != '\n'
}

/// One record rendered in the tag/value text grammar: the tag line, the
/// value lines where the value is non-empty, then the blank-line delimiter.
pub open spec fn encode_pair(p: (Seq<char>, Seq<char>)) -> Seq<char> {
    if p.1.len() == 0 {
        seq!['%'] + p.0 + seq!['%', '\n', '\n']
    } else {
        seq!['%'] + p.0 + seq!['%', '\n'] + p.1 + seq!['\n', '\n']
    }
}

/// A record list rendered as one container text.
pub open spec fn spec_encode(pairs: Seq<(Seq<char>, Seq<char>)>) -> Seq<char>
    decreases pairs.len(),
{
    if pairs.len() == 0 {
        Seq::empty()
    } else {
        encode_pair(pairs[0]) + spec_encode(pairs.drop_first())
    }
}

/// Parsing an encoded record off the front of a text yields that record and
/// leaves the rest to parse.
proof fn lemma_parse_encode_head(t: Seq<char>, v: Seq<char>, rest: Seq<char>)
    requires
        valid_tag(t),
        valid_value(v),
    ensures
        spec_parse_from(encode_pair((t, v)) + rest, 0) == seq![(t, v)] + spec_parse_from(rest, 0),
{
    let enc = encode_pair((t, v));
    let s = enc + rest;
    let e = t.len() + 1 as int;
    // line structure of the encoding: '%', the tag, '%', newline, the value
    // lines if any, then the blank line
    assert(s[0] == '%');
    assert forall|j: int| 1 <= j < e implies s[j] == t[j - 1] by {}
    assert(s[e] == '%');
    assert(s[e + 1] == '\n');
    assert forall|j: int| 0 <= j < e + 1 implies s[j] != '\n' by {
        if 1 <= j < e {
            assert(t[j - 1] != '\n');
        }
    }
    lemma_find_nl_is(s, 0, e + 1);
    assert(is_tag_line(s, 0, e + 1)) by {
        assert forall|j: int| 1 <= j < e implies s[j] != '%' by {
            assert(t[j - 1] != '%');
        }
    }
    let p = e + 2;
    if v.len() == 0 {
        // the blank line follows the tag line directly
        assert(s[p] == '\n');
        lemma_find_blank_line_is(s, p, p);
        assert(v =~= Seq::<char>::empty());
        assert(p + 1 == enc.len());
    } else {
        // the blank line starts right after the value's trailing newline
        let q = p + v.len() + 1;
        assert forall|j: int| p <= j < q - 1 implies s[j] == v[j - p] by {}
        assert(s[q - 1] == '\n');
        assert(s[q] == '\n');
        assert forall|j: int|
            p <= j < q implies !((#[trigger] s[j]) == '\n' && (j == p || s[j - 1] == '\n')) by {
            if j == p {
                assert(s[j] == v[0]);
            } else if j < q - 1 {
                assert(s[j] == v[j - p] && s[j - 1] == v[j - p - 1]);
            } else {
                assert(s[j - 1] == v[v.len() - 1]);
            }
        }
        lemma_find_blank_line_is(s, p, q);
        assert(s.subrange(p, q - 1) =~= v);
        assert(q + 1 == enc.len());
    }
    assert(s.subrange(1, e) =~= t);
    lemma_parse_shift(enc, rest, 0);
    assert(spec_parse_from(s, 0) == seq![(t, v)] + spec_parse_from(rest, 0));
}

/// Round trip: rendering records in the text grammar and parsing the result
/// recovers exactly the original records, in order, whenever every tag is
/// non-empty without `%` or newline and every value neither contains a
/// blank-line separator nor starts or ends with a newline.
pub proof fn lemma_encode_round_trip(pairs: Seq<(Seq<char>, Seq<char>)>)
    requires
        forall|i: int|
            0 <= i < pairs.len() ==> valid_tag(#[trigger] pairs[i].0) && valid_value(pairs[i].1),
    ensures
        spec_records(spec_encode(pairs)) == pairs,
    decreases pairs.len(),
{
    if pairs.len() == 0 {
        assert(spec_records(spec_encode(pairs)) =~= pairs);
    } else {
        lemma_parse_encode_head(pairs[0].0, pairs[0].1, spec_encode(pairs.drop_first()));
        lemma_encode_round_trip(pairs.drop_first());
        assert(encode_pair((pairs[0].0, pairs[0].1)) == encode_pair(pairs[0]));
        assert(seq![(pairs[0].0, pairs[0].1)] + pairs.drop_first() =~= pairs);
    }
}

/// Parsing is a pure function of the container text: two parses of the same
/// text yield identical record sequences, and the parser keeps no state
/// between calls.
pub proof fn lemma_parse_deterministic(
    s: Seq<char>,
    a: Seq<(Seq<char>, Seq<char>)>,
    b: Seq<(Seq<char>, Seq<char>)>,
)
    requires
        a == spec_records(s),
        b == spec_records(s),
    ensures
        a == b,
{
}

/// Find the next newline at or after `from`, as a character index into `s`.
fn scan_nl(s: &str, from: usize, n: usize) -> (e: usize)
    requires
        n == s@.len(),
        from <= n,
    ensures
        e == find_nl(s@, from as int),
{
    let mut i = from;
    while i < n
        invariant
            from <= i <= n,
            n == s@.len(),
            forall|j: int| from <= j < i ==> s@[j] != '\n',
        decreases n - i,
    {
        if s.get_char(i) == '\n' {
            proof {
                lemma_find_nl_is(s@, from as int, i as int);
            }
            return i;
        }
        i = i + 1;
    }
    proof {
        lemma_find_nl_is(s@, from as int, n as int);
    }
    n
}

/// Find the first blank line at or after the line start `from`, as the
/// index of its leading newline, or `n` when no blank line follows.
fn scan_blank_line(s: &str, from: usize, n: usize) -> (q: usize)
    requires
        n == s@.len(),
        from <= n,
    ensures
        q == find_blank_line(s@, from as int),
{
    let mut i = from;
    loop
        invariant
            from <= i <= n,
            n == s@.len(),
            find_blank_line(s@, from as int) == find_blank_line(s@, i as int),
        decreases n - i,
    {
        if i >= n {
            return i;
        }
        if s.get_char(i) == '\n' {
            return i;
        }
        let e = scan_nl(s, i, n);
        proof {
            lemma_find_nl(s@, i as int);
        }
        if e >= n {
            return n;
        }
        i = e + 1;
    }
}

/// Decide whether the line `s[i..e]` is a tag line.
fn check_tag_line(s: &str, i: usize, e: usize, n: usize) -> (b: bool)
    requires
        n == s@.len(),
        i <= e <= n,
    ensures
        b == is_tag_line(s@, i as int, e as int),
{
    if !(e < n && e - i >= 3) {
        return false;
    }
    if s.get_char(i) != '%' {
        return false;
    }
    if s.get_char(e - 1) != '%' {
        return false;
    }
    let mut j = i + 1;
    while j < e - 1
        invariant
            i + 1 <= j <= e - 1,
            i + 3 <= e <= n,
            n == s@.len(),
            forall|k: int| i + 1 <= k < j ==> s@[k] != '%',
        decreases e - j,
    {
        if s.get_char(j) == '%' {
            return false;
        }
        j = j + 1;
    }
    true
}

/// Iterator over the `(tag, value)` records of one `desc` container text.
///
/// The `'d` lifetime is that of the text handed to [`DescIter::new`]; the
/// yielded pairs are slices of it.  Malformed input cannot fail: unmatched
/// text is skipped and at worst no records are yielded.
pub struct DescIter<'d> {
    text: &'d str,
    pos: usize,
    len: usize,
}

impl<'d> DescIter<'d> {
    /// The iterator is consistent: its cached length is the text's character
    /// count and its position lies inside the text.
    pub closed spec fn wf(&self) -> bool {
        self.len == self.text@.len() && self.pos <= self.len
    }

    /// The records not yet yielded, in document order.
    pub closed spec fn remaining(&self) -> Seq<(Seq<char>, Seq<char>)> {
        spec_parse_from(self.text@, self.pos as int)
    }

    pub fn new(desc: &'d str) -> (it: Self)
        ensures
            it.wf(),
            it.remaining() == spec_records(desc@),
    {
        let n = desc.unicode_len();
        DescIter { text: desc, pos: 0, len: n }
    }

    /// Yield the next record, advancing past it, or `None` when no further
    /// well-formed record exists.
    pub fn next(&mut self) -> (r: Option<(&'d str, &'d str)>)
        requires
            old(self).wf(),
        ensures
            final(self).wf(),
            match r {
                Some(p) => {
                    &&& old(self).remaining().len() > 0
                    &&& p.0@ == old(self).remaining()[0].0
                    &&& p.1@ == old(self).remaining()[0].1
                    &&& final(self).remaining() == old(self).remaining().drop_first()
                },
                None => {
                    &&& old(self).remaining().len() == 0
                    &&& final(self).remaining() == old(self).remaining()
                },
            },
    {
        let ghost orig = spec_parse_from(self.text@, self.pos as int);
        loop
            invariant
                self.wf(),
                self.text == old(self).text,
                self.len == old(self).len,
                spec_parse_from(self.text@, self.pos as int) == orig,
                orig == old(self).remaining(),
            decreases self.len - self.pos,
        {
            let t = self.text;
            let n = self.len;
            let i = self.pos;
            if i >= n {
                return None;
            }
            let e = scan_nl(t, i, n);
            proof {
                lemma_find_nl(t@, i as int);
            }
            if check_tag_line(t, i, e, n) {
                let q = scan_blank_line(t, e + 1, n);
                proof {
                    lemma_find_blank_line(t@, e as int + 1);
                }
                if q < n {
                    let tag = t.substring_char(i + 1, e - 1);
                    let value = if q == e + 1 {
                        t.substring_char(e + 1, e + 1)
                    } else {
                        t.substring_char(e + 1, q - 1)
                    };
                    self.pos = q + 1;
                    proof {
                        if q == e + 1 {
                            assert(value@ =~= Seq::<char>::empty());
                        }
                        assert(spec_parse_from(t@, q as int + 1) =~= orig.drop_first());
                    }
                    return Some((tag, value));
                } else {
                    self.pos = n;
                    return None;
                }
            } else {
                if e >= n {
                    self.pos = n;
                    return None;
                }
                self.pos = e + 1;
            }
        }
    }
}

/// Parse a whole container text into its record list.
pub fn parse_desc(desc: &str) -> (pairs: Vec<(String, String)>)
    ensures
        pairs.deep_view() == spec_records(desc@),
{
    let mut it = DescIter::new(desc);
    let mut out: Vec<(String, String)> = Vec::new();
    loop
        invariant
            it.wf(),
            out.deep_view() + it.remaining() == spec_records(desc@),
        decreases it.remaining().len(),
    {
        let ghost before = out.deep_view();
        let ghost left = it.remaining();
        match it.next() {
            Some(p) => {
                out.push((p.0.to_owned(), p.1.to_owned()));
                proof {
                    assert(out.deep_view() =~= before.push((p.0@, p.1@)));
                    assert(before.push((p.0@, p.1@)) + it.remaining() =~= before + left);
                }
            },
            None => {
                proof {
                    assert(out.deep_view() =~= spec_records(desc@));
                }
                return out;
            },
        }
    }
}

/// Render a record list as one container text in the tag/value grammar.
pub fn encode_pairs(pairs: &Vec<(String, String)>) -> (text: String)
    ensures
        text@ == spec_encode(pairs.deep_view()),
{
    let ghost dv = pairs.deep_view();
    let mut out = String::new();
    let mut idx: usize = 0;
    proof {
        assert(dv.skip(0) =~= dv);
        assert(out@ + spec_encode(dv) =~= spec_encode(dv));
    }
    while idx < pairs.len()
        invariant
            idx <= pairs.len(),
            dv == pairs.deep_view(),
            dv.len() == pairs.len(),
            out@ + spec_encode(dv.skip(idx as int)) == spec_encode(dv),
        decreases pairs.len() - idx,
    {
        let p = &pairs[idx];
        let ghost before = out@;
        out.append("%");
        out.append(p.0.as_str());
        if p.1.as_str().is_empty() {
            out.append("%\n\n");
        } else {
            out.append("%\n");
            out.append(p.1.as_str());
            out.append("\n\n");
        }
        proof {
            reveal_strlit("%");
            reveal_strlit("%\n");
            reveal_strlit("%\n\n");
            reveal_strlit("\n\n");
            assert(out@ =~= before + encode_pair(dv[idx as int]));
            assert(dv.skip(idx as int).drop_first() =~= dv.skip(idx as int + 1));
            assert(out@ + spec_encode(dv.skip(idx as int + 1)) =~= before + spec_encode(
                dv.skip(idx as int),
            ));
        }
        idx = idx + 1;
    }
    proof {
        assert(dv.skip(pairs.len() as int) =~= Seq::<(Seq<char>, Seq<char>)>::empty());
        assert(out@ =~= spec_encode(dv));
    }
    out
}

} // verus!
