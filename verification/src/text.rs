//! Character-level helpers on strings: whitespace trimming, prefixes,
//! line splitting, joining and character replacement.
use vstd::prelude::*;
use vstd::string::StringExecFns;

verus! {

/// The Unicode `White_Space` property, the set of characters that
/// `char::is_whitespace` and `str::trim` treat as whitespace.
pub open spec fn is_white_space(c: char) -> bool {
    let u = c as u32;
    ||| 0x09 <= u <= 0x0d
    ||| u == 0x20
    ||| u == 0x85
    ||| u == 0xa0
    ||| u == 0x1680
    ||| 0x2000 <= u <= 0x200a
    ||| u == 0x2028
    ||| u == 0x2029
    ||| u == 0x202f
    ||| u == 0x205f
    ||| u == 0x3000
}

/// `s` without its leading whitespace.
pub open spec fn trim_start(s: Seq<char>) -> Seq<char>
    decreases s.len(),
{
    if s.len() > 0 && is_white_space(s[0]) {
        trim_start(s.drop_first())
    } else {
        s
    }
}

/// `s` without its trailing whitespace.
pub open spec fn trim_end(s: Seq<char>) -> Seq<char>
    decreases s.len(),
{
    if s.len() > 0 && is_white_space(s.last()) {
        trim_end(s.drop_last())
    } else {
        s
    }
}

/// `s` without leading and trailing whitespace, as `str::trim` gives it.
pub open spec fn trim(s: Seq<char>) -> Seq<char> {
    trim_end(trim_start(s))
}

/// `prefix` is a prefix of `s`.
pub open spec fn has_prefix(s: Seq<char>, prefix: Seq<char>) -> bool {
    prefix.len() <= s.len() && s.subrange(0, prefix.len() as int) == prefix
}

/// `s` with every `from` replaced by `to`.
pub open spec fn replace_char(s: Seq<char>, from: char, to: char) -> Seq<char> {
    s.map_values(|c: char| if c == from { to } else { c })
}

/// The elements of `items` with `sep` between each two neighbours.
pub open spec fn join(items: Seq<Seq<char>>, sep: Seq<char>) -> Seq<char>
    decreases items.len(),
{
    if items.len() == 0 {
        seq![]
    } else if items.len() == 1 {
        items[0]
    } else {
        join(items.drop_last(), sep) + sep + items.last()
    }
}

/// A line as `str::lines` hands it out: without its `\n`, and without a
/// `\r` that stood just before that `\n`.
pub open spec fn strip_cr(line: Seq<char>) -> Seq<char> {
    if line.len() > 0 && line.last() == '\r' {
        line.drop_last()
    } else {
        line
    }
}

/// Reading `s` from the front: the lines that a `\n` has closed, and the
/// characters read since the last `\n`.
pub open spec fn line_scan(s: Seq<char>) -> (Seq<Seq<char>>, Seq<char>)
    decreases s.len(),
{
    if s.len() == 0 {
        (seq![], seq![])
    } else {
        let (done, cur) = line_scan(s.drop_last());
        if s.last() == '\n' {
            (done.push(strip_cr(cur)), seq![])
        } else {
            (done, cur.push(s.last()))
        }
    }
}

/// The lines of `s`, as `str::lines` gives them: split at each `\n`, a
/// `\r` before it dropped, and a last line only where it is not empty.
pub open spec fn lines(s: Seq<char>) -> Seq<Seq<char>> {
    let (done, cur) = line_scan(s);
    if cur.len() > 0 {
        done.push(cur)
    } else {
        done
    }
}

/// Appends `c` to `s`, with `String::push`.
#[verifier::external_body]
pub(crate) fn push_char(s: &mut String, c: char)
    ensures
        final(s)@ == old(s)@.push(c),
{
    s.push(c);
}

/// The characters of `s`, in order.
pub fn chars_of(s: &str) -> (v: Vec<char>)
    ensures
        v@ == s@,
{
    let mut v: Vec<char> = Vec::new();
    for c in it: s.chars()
        invariant
            it.seq() == s@,
            v@ == s@.take(it.index() as int),
    {
        assert(s@.take(it.index() + 1) == s@.take(it.index() as int).push(c));
        v.push(c);
    }
    assert(s@.take(s@.len() as int) == s@);
    v
}

/// The string made of `chars[lo..hi]`.
pub fn string_of(chars: &Vec<char>, lo: usize, hi: usize) -> (r: String)
    requires
        lo <= hi <= chars.len(),
    ensures
        r@ == chars@.subrange(lo as int, hi as int),
{
    let mut r = String::new();
    let mut i = lo;
    while i < hi
        invariant
            lo <= i <= hi <= chars.len(),
            r@ == chars@.subrange(lo as int, i as int),
        decreases hi - i,
    {
        assert(chars@.subrange(lo as int, i + 1) == chars@.subrange(lo as int, i as int).push(
            chars@[i as int],
        ));
        push_char(&mut r, chars[i]);
        i = i + 1;
    }
    r
}

/// Whether `c` is whitespace, as `char::is_whitespace` decides.
pub fn is_whitespace(c: char) -> (b: bool)
    ensures
        b == is_white_space(c),
{
    let u = c as u32;
    (0x09 <= u && u <= 0x0d) || u == 0x20 || u == 0x85 || u == 0xa0 || u == 0x1680 || (0x2000
        <= u && u <= 0x200a) || u == 0x2028 || u == 0x2029 || u == 0x202f || u == 0x205f || u
        == 0x3000
}

/// `s` without leading and trailing whitespace.
pub fn trimmed(s: &str) -> (r: String)
    ensures
        r@ == trim(s@),
{
    let v = chars_of(s);
    let n = v.len();
    let mut a: usize = 0;
    assert(v@.subrange(0, n as int) == v@);
    while a < n && is_whitespace(v[a])
        invariant
            a <= n == v@.len(),
            trim_start(v@) == trim_start(v@.subrange(a as int, n as int)),
        decreases n - a,
    {
        assert(v@.subrange(a as int, n as int).drop_first() == v@.subrange(a + 1, n as int));
        a = a + 1;
    }
    assert(trim_start(v@) == v@.subrange(a as int, n as int));
    let mut b: usize = n;
    while b > a && is_whitespace(v[b - 1])
        invariant
            a <= b <= n == v@.len(),
            trim_end(v@.subrange(a as int, n as int)) == trim_end(v@.subrange(a as int, b as int)),
        decreases b - a,
    {
        assert(v@.subrange(a as int, b as int).drop_last() == v@.subrange(a as int, b - 1));
        b = b - 1;
    }
    assert(trim_end(v@.subrange(a as int, b as int)) == v@.subrange(a as int, b as int));
    string_of(&v, a, b)
}

/// Whether `s` starts with `prefix`.
pub fn starts_with(s: &str, prefix: &str) -> (b: bool)
    ensures
        b == has_prefix(s@, prefix@),
{
    let v = chars_of(s);
    let p = chars_of(prefix);
    if p.len() > v.len() {
        return false;
    }
    let mut i: usize = 0;
    while i < p.len()
        invariant
            p.len() <= v.len(),
            i <= p.len(),
            v@ == s@,
            p@ == prefix@,
            v@.subrange(0, i as int) == p@.subrange(0, i as int),
        decreases p.len() - i,
    {
        if v[i] != p[i] {
            assert(v@.subrange(0, p@.len() as int)[i as int] != p@[i as int]);
            return false;
        }
        assert(v@.subrange(0, i + 1) == v@.subrange(0, i as int).push(v@[i as int]));
        assert(p@.subrange(0, i + 1) == p@.subrange(0, i as int).push(p@[i as int]));
        i = i + 1;
    }
    assert(p@.subrange(0, p@.len() as int) == p@);
    true
}

/// Whether `a` and `b` hold the same characters.
pub fn same_text(a: &str, b: &str) -> (r: bool)
    ensures
        r == (a@ == b@),
{
    let va = chars_of(a);
    let vb = chars_of(b);
    if va.len() != vb.len() {
        return false;
    }
    let mut i: usize = 0;
    while i < va.len()
        invariant
            va.len() == vb.len(),
            i <= va.len(),
            va@ == a@,
            vb@ == b@,
            forall|k: int| 0 <= k < i ==> va@[k] == vb@[k],
        decreases va.len() - i,
    {
        if va[i] != vb[i] {
            return false;
        }
        i = i + 1;
    }
    assert(va@ == vb@);
    true
}

/// `s` with every `from` replaced by `to`.
pub fn replaced(s: &str, from: char, to: char) -> (r: String)
    ensures
        r@ == replace_char(s@, from, to),
{
    let v = chars_of(s);
    let mut r = String::new();
    let mut i: usize = 0;
    while i < v.len()
        invariant
            i <= v.len(),
            v@ == s@,
            r@ == replace_char(v@.take(i as int), from, to),
        decreases v.len() - i,
    {
        let c = v[i];
        let d = if c == from {
            to
        } else {
            c
        };
        assert(replace_char(v@.take(i + 1), from, to) == replace_char(v@.take(i as int), from, to).push(d));
        push_char(&mut r, d);
        i = i + 1;
    }
    assert(v@.take(v@.len() as int) == v@);
    r
}

/// The view of an optional string.
pub open spec fn opt_view(o: Option<String>) -> Option<Seq<char>> {
    match o {
        Some(s) => Some(s@),
        None => None,
    }
}

/// The views of a vector of strings.
pub open spec fn views(v: Seq<String>) -> Seq<Seq<char>> {
    v.map_values(|x: String| x@)
}

/// The elements of `items` with `sep` between each two neighbours.
pub fn joined(items: &Vec<String>, sep: &str) -> (r: String)
    ensures
        r@ == join(views(items@), sep@),
{
    let mut r = String::new();
    let mut i: usize = 0;
    while i < items.len()
        invariant
            i <= items.len(),
            r@ == join(views(items@).take(i as int), sep@),
        decreases items.len() - i,
    {
        assert(views(items@).take(i + 1).drop_last() == views(items@).take(i as int));
        if i == 0 {
            r.append(items[i].as_str());
        } else {
            r.append(sep);
            r.append(items[i].as_str());
        }
        i = i + 1;
    }
    assert(views(items@).take(items@.len() as int) == views(items@));
    r
}

/// The lines of `s`, as `str::lines` gives them.
pub fn split_lines(s: &str) -> (r: Vec<String>)
    ensures
        views(r@) == lines(s@),
{
    let v = chars_of(s);
    let n = v.len();
    let mut r: Vec<String> = Vec::new();
    let mut start: usize = 0;
    let mut i: usize = 0;
    assert(v@.take(0) == Seq::<char>::empty());
    while i < n
        invariant
            n == v@.len(),
            v@ == s@,
            start <= i <= n,
            line_scan(v@.take(i as int)) == (views(r@), v@.subrange(start as int, i as int)),
        decreases n - i,
    {
        assert(v@.take(i + 1).drop_last() == v@.take(i as int));
        assert(v@.take(i + 1).last() == v@[i as int]);
        if v[i] == '\n' {
            let end = if i > start && v[i - 1] == '\r' {
                i - 1
            } else {
                i
            };
            assert(strip_cr(v@.subrange(start as int, i as int)) == v@.subrange(
                start as int,
                end as int,
            ));
            let line = string_of(&v, start, end);
            let ghost before = r@;
            r.push(line);
            assert(views(r@) =~= views(before).push(line@));
            start = i + 1;
        } else {
            assert(v@.subrange(start as int, i + 1) == v@.subrange(start as int, i as int).push(
                v@[i as int],
            ));
        }
        i = i + 1;
    }
    assert(v@.take(n as int) == v@);
    if start < n {
        let line = string_of(&v, start, n);
        let ghost before = r@;
        r.push(line);
        assert(views(r@) =~= views(before).push(line@));
    }
    r
}

/// `part` appended to the path `base`, as `Path::join` does on Unix for a
/// relative `part`: with a `/` between them unless `base` is empty or
/// already ends with one.
pub open spec fn join_path(base: Seq<char>, part: Seq<char>) -> Seq<char> {
    if base.len() == 0 {
        part
    } else if base.last() == '/' {
        base + part
    } else {
        base + seq!['/'] + part
    }
}

/// `part` appended to the path `base`.
pub fn path_join(base: &str, part: &str) -> (r: String)
    ensures
        r@ == join_path(base@, part@),
{
    let v = chars_of(base);
    let mut r = String::from_str(base);
    if v.len() > 0 && v[v.len() - 1] != '/' {
        push_char(&mut r, '/');
    }
    r.append(part);
    r
}

proof fn lemma_trim_start_front(s: Seq<char>)
    ensures
        trim_start(s).len() == 0 || !is_white_space(trim_start(s)[0]),
    decreases s.len(),
{
    if s.len() > 0 && is_white_space(s[0]) {
        lemma_trim_start_front(s.drop_first());
    }
}

proof fn lemma_trim_end_back(s: Seq<char>)
    ensures
        trim_end(s).len() == 0 || !is_white_space(trim_end(s).last()),
        trim_end(s).len() <= s.len(),
        trim_end(s) == s.take(trim_end(s).len() as int),
    decreases s.len(),
{
    if s.len() > 0 && is_white_space(s.last()) {
        lemma_trim_end_back(s.drop_last());
        assert(s.drop_last().take(trim_end(s).len() as int) == s.take(trim_end(s).len() as int));
    } else {
        assert(s.take(s.len() as int) == s);
    }
}

/// Trimming a trimmed string changes nothing.
pub proof fn lemma_trim_idempotent(s: Seq<char>)
    ensures
        trim(trim(s)) == trim(s),
{
    let ts = trim_start(s);
    let v = trim_end(ts);
    lemma_trim_start_front(s);
    lemma_trim_end_back(ts);
    if v.len() > 0 {
        assert(v[0] == ts[0]);
        assert(trim_start(v) == v);
        assert(trim_end(v) == v);
    }
}

/// A string without whitespace at either end is its own trim.
pub proof fn lemma_trim_of_untrimmed(s: Seq<char>)
    requires
        s.len() > 0,
        !is_white_space(s[0]),
        !is_white_space(s.last()),
    ensures
        trim(s) == s,
{
}

proof fn lemma_line_scan_no_newline(s: Seq<char>)
    ensures
        forall|k: int|
            0 <= k < line_scan(s).0.len() ==> !(#[trigger] line_scan(s).0[k]).contains('\n'),
        !line_scan(s).1.contains('\n'),
    decreases s.len(),
{
    if s.len() > 0 {
        lemma_line_scan_no_newline(s.drop_last());
        let (done, cur) = line_scan(s.drop_last());
        if s.last() == '\n' {
            let l = strip_cr(cur);
            assert(!l.contains('\n')) by {
                if l.contains('\n') {
                    let k = choose|k: int| 0 <= k < l.len() && l[k] == '\n';
                    assert(cur[k] == '\n');
                }
            }
            assert forall|k: int| 0 <= k < done.push(l).len() implies !(#[trigger] done.push(
                l,
            )[k]).contains('\n') by {
                if k < done.len() {
                    assert(done.push(l)[k] == done[k]);
                }
            }
            assert(!Seq::<char>::empty().contains('\n'));
        } else {
            let c = cur.push(s.last());
            assert(!c.contains('\n')) by {
                if c.contains('\n') {
                    let k = choose|k: int| 0 <= k < c.len() && c[k] == '\n';
                    if k < cur.len() {
                        assert(cur[k] == '\n');
                    }
                }
            }
        }
    }
}

/// No line that `lines` gives holds a `\n`.
pub proof fn lemma_lines_have_no_newline(s: Seq<char>)
    ensures
        forall|k: int| 0 <= k < lines(s).len() ==> !(#[trigger] lines(s)[k]).contains('\n'),
{
    lemma_line_scan_no_newline(s);
    let (done, cur) = line_scan(s);
    if cur.len() > 0 {
        assert forall|k: int| 0 <= k < done.push(cur).len() implies !(#[trigger] done.push(
            cur,
        )[k]).contains('\n') by {
            if k < done.len() {
                assert(done.push(cur)[k] == done[k]);
            }
        }
    }
}

/// `prefix` is a prefix of `s` exactly where `s` is at least as long and
/// agrees with `prefix` at each of its positions.
pub proof fn lemma_has_prefix_agrees(s: Seq<char>, prefix: Seq<char>)
    ensures
        has_prefix(s, prefix) <==> (prefix.len() <= s.len() && forall|k: int|
            0 <= k < prefix.len() ==> #[trigger] s[k] == prefix[k]),
{
    if prefix.len() <= s.len() && forall|k: int| 0 <= k < prefix.len() ==> #[trigger] s[k]
        == prefix[k] {
        assert(s.subrange(0, prefix.len() as int) =~= prefix);
    }
    if has_prefix(s, prefix) {
        assert forall|k: int| 0 <= k < prefix.len() implies #[trigger] s[k] == prefix[k] by {
            assert(s.subrange(0, prefix.len() as int)[k] == s[k]);
        }
    }
}

} // verus!
