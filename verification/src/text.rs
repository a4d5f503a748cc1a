//! Character-level text handling used by the configuration and command
//! parsers: whitespace classification, word and field splitting, line
//! splitting, trimming, joining, substitution and number recognition.
//!
//! Every function here works on `Vec<char>` and is specified over the
//! `Seq<char>` it views as.
use vstd::prelude::*;

verus! {

/// The views of a sequence of character vectors.
pub open spec fn views(v: Seq<Vec<char>>) -> Seq<Seq<char>> {
    v.map_values(|x: Vec<char>| x@)
}

pub proof fn lemma_views_push(v: Seq<Vec<char>>, x: Vec<char>)
    ensures
        views(v.push(x)) == views(v).push(x@),
{
    assert(views(v.push(x)) =~= views(v).push(x@));
}

/// The Unicode `White_Space` property, which `char::is_whitespace` tests.
pub open spec fn is_ws(c: char) -> bool {
    let u = c as u32;
    ||| u == 0x20
    ||| 0x09 <= u <= 0x0d
    ||| u == 0x85
    ||| u == 0xa0
    ||| u == 0x1680
    ||| 0x2000 <= u <= 0x200a
    ||| u == 0x2028
    ||| u == 0x2029
    ||| u == 0x202f
    ||| u == 0x205f
    ||| u == 0x3000
}

pub fn is_whitespace(c: char) -> (b: bool)
    ensures
        b == is_ws(c),
{
    let u = c as u32;
    u == 0x20 || (0x09 <= u && u <= 0x0d) || u == 0x85 || u == 0xa0 || u == 0x1680 || (0x2000
        <= u && u <= 0x200a) || u == 0x2028 || u == 0x2029 || u == 0x202f || u == 0x205f || u
        == 0x3000
}

/// `acc` with `cur` appended when `cur` is not empty.
pub open spec fn flush(acc: Seq<Seq<char>>, cur: Seq<char>) -> Seq<Seq<char>> {
    if cur.len() > 0 {
        acc.push(cur)
    } else {
        acc
    }
}

/// Scanning `s` from the left, after the words `acc` have been completed and
/// the word `cur` has been started: the list of all words.
pub open spec fn words_acc(s: Seq<char>, acc: Seq<Seq<char>>, cur: Seq<char>) -> Seq<Seq<char>>
    decreases s.len(),
{
    if s.len() == 0 {
        flush(acc, cur)
    } else if is_ws(s[0]) {
        words_acc(s.drop_first(), flush(acc, cur), Seq::empty())
    } else {
        words_acc(s.drop_first(), acc, cur.push(s[0]))
    }
}

/// The maximal runs of non-whitespace characters of `s`, in order
/// (what `str::split_whitespace` yields).
pub open spec fn words(s: Seq<char>) -> Seq<Seq<char>> {
    words_acc(s, Seq::empty(), Seq::empty())
}

/// Scanning `s` for the separator `sep`: the fields of `s` (what
/// `str::split` yields for a character pattern; never empty).
pub open spec fn fields_acc(s: Seq<char>, sep: char, acc: Seq<Seq<char>>, cur: Seq<char>) -> Seq<
    Seq<char>,
>
    decreases s.len(),
{
    if s.len() == 0 {
        acc.push(cur)
    } else if s[0] == sep {
        fields_acc(s.drop_first(), sep, acc.push(cur), Seq::empty())
    } else {
        fields_acc(s.drop_first(), sep, acc, cur.push(s[0]))
    }
}

pub open spec fn fields(s: Seq<char>, sep: char) -> Seq<Seq<char>> {
    fields_acc(s, sep, Seq::empty(), Seq::empty())
}

/// A line without its `'\r'` terminator, if it has one.
pub open spec fn strip_cr(l: Seq<char>) -> Seq<char> {
    if l.len() > 0 && l.last() == '\r' {
        l.drop_last()
    } else {
        l
    }
}

/// Scanning `s` for line ends: the lines of `s` (what `str::lines` yields:
/// lines end at `'\n'`, a `'\r'` just before it is dropped, and an empty
/// piece after the last `'\n'` is no line).
pub open spec fn lines_acc(s: Seq<char>, acc: Seq<Seq<char>>, cur: Seq<char>) -> Seq<Seq<char>>
    decreases s.len(),
{
    if s.len() == 0 {
        flush(acc, cur)
    } else if s[0] == '\n' {
        lines_acc(s.drop_first(), acc.push(strip_cr(cur)), Seq::empty())
    } else {
        lines_acc(s.drop_first(), acc, cur.push(s[0]))
    }
}

pub open spec fn lines(s: Seq<char>) -> Seq<Seq<char>> {
    lines_acc(s, Seq::empty(), Seq::empty())
}

/// `s` without its leading whitespace.
pub open spec fn trim_start(s: Seq<char>) -> Seq<char>
    decreases s.len(),
{
    if s.len() > 0 && is_ws(s[0]) {
        trim_start(s.drop_first())
    } else {
        s
    }
}

/// `s` without its trailing whitespace.
pub open spec fn trim_end(s: Seq<char>) -> Seq<char>
    decreases s.len(),
{
    if s.len() > 0 && is_ws(s.last()) {
        trim_end(s.drop_last())
    } else {
        s
    }
}

pub open spec fn trim(s: Seq<char>) -> Seq<char> {
    trim_end(trim_start(s))
}

/// The pieces of `parts` joined, with one `sep` between neighbours.
pub open spec fn join(parts: Seq<Seq<char>>, sep: char) -> Seq<char>
    decreases parts.len(),
{
    if parts.len() == 0 {
        Seq::empty()
    } else if parts.len() == 1 {
        parts[0]
    } else {
        join(parts.drop_last(), sep).push(sep) + parts.last()
    }
}

/// `s` with every occurrence of `pat`, taken from the left and without
/// overlap, replaced by `rep` (what `str::replace` gives for a non-empty
/// pattern).
pub open spec fn replace_all(s: Seq<char>, pat: Seq<char>, rep: Seq<char>) -> Seq<char>
    decreases s.len(),
{
    if pat.len() == 0 || s.len() < pat.len() {
        s
    } else if s.take(pat.len() as int) == pat {
        rep + replace_all(s.skip(pat.len() as int), pat, rep)
    } else {
        seq![s[0]] + replace_all(s.drop_first(), pat, rep)
    }
}

pub open spec fn starts_with(s: Seq<char>, p: Seq<char>) -> bool {
    p.len() <= s.len() && s.take(p.len() as int) == p
}

/// The characters of a string.
pub fn chars_of(s: &str) -> (v: Vec<char>)
    ensures
        v@ == s@,
{
    let mut v: Vec<char> = Vec::new();
    for c in it: s.chars()
        invariant
            v@ == it.seq().take(it.index() as int),
            it.seq() == s@,
    {
        v.push(c);
        assert(it.seq().take(it.index() + 1) =~= v@);
    }
    assert(v@ =~= s@);
    v
}

/// Collects characters into a `String` by `String::from_iter` over the
/// characters; claimed of it, as std documents: the string holds exactly
/// those characters, in order.
#[verifier::external_body]
pub(crate) fn string_of(v: &Vec<char>) -> (s: String)
    ensures
        s@ == v@,
{
    String::from_iter(v.iter())
}

/// Whether a character vector spells the string `lit`.
pub fn eq_str(v: &Vec<char>, lit: &str) -> (b: bool)
    ensures
        b == (v@ == lit@),
{
    let w = chars_of(lit);
    eq_chars(v, &w)
}

pub fn eq_chars(v: &Vec<char>, w: &Vec<char>) -> (b: bool)
    ensures
        b == (v@ == w@),
{
    if v.len() != w.len() {
        return false;
    }
    let mut i: usize = 0;
    while i < v.len()
        invariant
            v.len() == w.len(),
            i <= v.len(),
            forall|j: int| 0 <= j < i ==> v@[j] == w@[j],
        decreases v.len() - i,
    {
        if v[i] != w[i] {
            return false;
        }
        i += 1;
    }
    assert(v@ =~= w@);
    true
}

/// `s[from..to]` as a new vector.
pub fn slice(s: &Vec<char>, from: usize, to: usize) -> (r: Vec<char>)
    requires
        from <= to <= s.len(),
    ensures
        r@ == s@.subrange(from as int, to as int),
{
    let mut r: Vec<char> = Vec::new();
    let mut i = from;
    while i < to
        invariant
            from <= i <= to <= s.len(),
            r@ == s@.subrange(from as int, i as int),
        decreases to - i,
    {
        r.push(s[i]);
        i += 1;
        assert(r@ =~= s@.subrange(from as int, i as int));
    }
    r
}

pub fn starts_with_char(s: &Vec<char>, c: char) -> (b: bool)
    ensures
        b == (s@.len() > 0 && s@[0] == c),
{
    s.len() > 0 && s[0] == c
}

/// What `str::split_whitespace` yields.
pub fn split_whitespace(s: &Vec<char>) -> (r: Vec<Vec<char>>)
    ensures
        views(r@) == words(s@),
{
    let mut acc: Vec<Vec<char>> = Vec::new();
    let mut cur: Vec<char> = Vec::new();
    let mut i: usize = 0;
    assert(s@.skip(0) =~= s@);
    assert(views(acc@) =~= Seq::<Seq<char>>::empty());
    assert(cur@ =~= Seq::<char>::empty());
    while i < s.len()
        invariant
            i <= s.len(),
            words(s@) == words_acc(s@.skip(i as int), views(acc@), cur@),
        decreases s.len() - i,
    {
        assert(s@.skip(i as int).drop_first() =~= s@.skip(i + 1));
        let c = s[i];
        if is_whitespace(c) {
            if cur.len() > 0 {
                proof {
                    lemma_views_push(acc@, cur);
                }
                acc.push(cur);
            }
            cur = Vec::new();
            assert(cur@ =~= Seq::<char>::empty());
        } else {
            cur.push(c);
        }
        i += 1;
    }
    if cur.len() > 0 {
        proof {
            lemma_views_push(acc@, cur);
        }
        acc.push(cur);
    }
    acc
}

/// What `str::split` yields for a character pattern.
pub fn split_char(s: &Vec<char>, sep: char) -> (r: Vec<Vec<char>>)
    ensures
        views(r@) == fields(s@, sep),
        r.len() >= 1,
{
    let mut acc: Vec<Vec<char>> = Vec::new();
    let mut cur: Vec<char> = Vec::new();
    let mut i: usize = 0;
    assert(s@.skip(0) =~= s@);
    assert(views(acc@) =~= Seq::<Seq<char>>::empty());
    assert(cur@ =~= Seq::<char>::empty());
    while i < s.len()
        invariant
            i <= s.len(),
            fields(s@, sep) == fields_acc(s@.skip(i as int), sep, views(acc@), cur@),
        decreases s.len() - i,
    {
        assert(s@.skip(i as int).drop_first() =~= s@.skip(i + 1));
        let c = s[i];
        if c == sep {
            proof {
                lemma_views_push(acc@, cur);
            }
            acc.push(cur);
            cur = Vec::new();
            assert(cur@ =~= Seq::<char>::empty());
        } else {
            cur.push(c);
        }
        i += 1;
    }
    proof {
        lemma_views_push(acc@, cur);
    }
    acc.push(cur);
    acc
}

/// What `str::lines` yields.
pub fn split_lines(s: &Vec<char>) -> (r: Vec<Vec<char>>)
    ensures
        views(r@) == lines(s@),
{
    let mut acc: Vec<Vec<char>> = Vec::new();
    let mut cur: Vec<char> = Vec::new();
    let mut i: usize = 0;
    assert(s@.skip(0) =~= s@);
    assert(views(acc@) =~= Seq::<Seq<char>>::empty());
    assert(cur@ =~= Seq::<char>::empty());
    while i < s.len()
        invariant
            i <= s.len(),
            lines(s@) == lines_acc(s@.skip(i as int), views(acc@), cur@),
        decreases s.len() - i,
    {
        assert(s@.skip(i as int).drop_first() =~= s@.skip(i + 1));
        let c = s[i];
        if c == '\n' {
            if cur.len() > 0 && cur[cur.len() - 1] == '\r' {
                cur.pop();
            }
            proof {
                lemma_views_push(acc@, cur);
            }
            acc.push(cur);
            cur = Vec::new();
            assert(cur@ =~= Seq::<char>::empty());
        } else {
            cur.push(c);
        }
        i += 1;
    }
    if cur.len() > 0 {
        proof {
            lemma_views_push(acc@, cur);
        }
        acc.push(cur);
    }
    acc
}

proof fn lemma_trim_start_skip(s: Seq<char>, i: int)
    requires
        0 <= i <= s.len(),
        forall|j: int| 0 <= j < i ==> is_ws(#[trigger] s[j]),
    ensures
        trim_start(s) == trim_start(s.skip(i)),
    decreases i,
{
    if i > 0 {
        assert(s.drop_first().skip(i - 1) =~= s.skip(i));
        lemma_trim_start_skip(s.drop_first(), i - 1);
    } else {
        assert(s.skip(0) =~= s);
    }
}

proof fn lemma_trim_end_take(s: Seq<char>, k: int)
    requires
        0 <= k <= s.len(),
        forall|j: int| k <= j < s.len() ==> is_ws(#[trigger] s[j]),
    ensures
        trim_end(s) == trim_end(s.take(k)),
    decreases s.len() - k,
{
    if k < s.len() {
        assert(s.drop_last().take(k) =~= s.take(k));
        lemma_trim_end_take(s.drop_last(), k);
    } else {
        assert(s.take(k) =~= s);
    }
}

/// What `str::trim_start` gives.
pub fn trim_start_chars(s: &Vec<char>) -> (r: Vec<char>)
    ensures
        r@ == trim_start(s@),
{
    let mut i: usize = 0;
    while i < s.len() && is_whitespace(s[i])
        invariant
            i <= s.len(),
            forall|j: int| 0 <= j < i ==> is_ws(#[trigger] s@[j]),
        decreases s.len() - i,
    {
        i += 1;
    }
    proof {
        lemma_trim_start_skip(s@, i as int);
    }
    let r = slice(s, i, s.len());
    assert(r@ =~= s@.skip(i as int));
    r
}

/// What `str::trim_end` gives.
pub fn trim_end_chars(s: &Vec<char>) -> (r: Vec<char>)
    ensures
        r@ == trim_end(s@),
{
    let mut k: usize = s.len();
    while k > 0 && is_whitespace(s[k - 1])
        invariant
            k <= s.len(),
            forall|j: int| k <= j < s.len() ==> is_ws(#[trigger] s@[j]),
        decreases k,
    {
        k -= 1;
    }
    proof {
        lemma_trim_end_take(s@, k as int);
    }
    let r = slice(s, 0, k);
    assert(r@ =~= s@.take(k as int));
    r
}

/// What `str::trim` gives.
pub fn trim_chars(s: &Vec<char>) -> (r: Vec<char>)
    ensures
        r@ == trim(s@),
{
    let t = trim_start_chars(s);
    trim_end_chars(&t)
}

/// `parts[from..]` joined with `sep` (what `[&str]::join` gives).
pub fn join_from(parts: &Vec<Vec<char>>, from: usize, sep: char) -> (r: Vec<char>)
    requires
        from <= parts.len(),
    ensures
        r@ == join(views(parts@).skip(from as int), sep),
{
    let ghost ps = views(parts@).skip(from as int);
    let mut r: Vec<char> = Vec::new();
    let mut i: usize = from;
    assert(ps.take(0) =~= Seq::<Seq<char>>::empty());
    while i < parts.len()
        invariant
            from <= i <= parts.len(),
            ps == views(parts@).skip(from as int),
            r@ == join(ps.take(i - from), sep),
        decreases parts.len() - i,
    {
        let ghost k = i - from;
        assert(ps.take(k + 1).drop_last() =~= ps.take(k));
        assert(ps.take(k + 1).last() == parts@[i as int]@);
        if i > from {
            r.push(sep);
        }
        let mut j: usize = 0;
        let ghost base = r@;
        while j < parts[i].len()
            invariant
                i < parts.len(),
                j <= parts[i as int].len(),
                r@ == base + parts[i as int]@.take(j as int),
            decreases parts[i as int].len() - j,
        {
            r.push(parts[i][j]);
            j += 1;
            assert(r@ =~= base + parts[i as int]@.take(j as int));
        }
        assert(parts[i as int]@.take(j as int) =~= parts[i as int]@);
        proof {
            if k == 0 {
                assert(r@ =~= join(ps.take(k + 1), sep));
            }
        }
        i += 1;
    }
    assert(ps.take(parts.len() - from) =~= ps);
    r
}

/// What `str::replace` gives for a non-empty pattern.
pub fn replace_chars(s: &Vec<char>, pat: &Vec<char>, rep: &Vec<char>) -> (r: Vec<char>)
    requires
        pat.len() > 0,
    ensures
        r@ == replace_all(s@, pat@, rep@),
{
    let mut out: Vec<char> = Vec::new();
    let mut i: usize = 0;
    let m = pat.len();
    assert(s@.skip(0) =~= s@);
    while m <= s.len() - i
        invariant
            i <= s.len(),
            m == pat.len() > 0,
            replace_all(s@, pat@, rep@) == out@ + replace_all(s@.skip(i as int), pat@, rep@),
        decreases s.len() - i,
    {
        let ghost rest = s@.skip(i as int);
        let mut j: usize = 0;
        let mut matched = true;
        while j < m
            invariant
                i + m <= s.len(),
                m == pat.len(),
                j <= m,
                matched == (forall|k: int| 0 <= k < j ==> s@[i + k] == pat@[k]),
            decreases m - j,
        {
            if s[i + j] != pat[j] {
                matched = false;
            }
            j += 1;
        }
        assert(matched == (rest.take(m as int) == pat@)) by {
            if matched {
                assert(rest.take(m as int) =~= pat@);
            }
        }
        if matched {
            let ghost before = out@;
            let mut k: usize = 0;
            while k < rep.len()
                invariant
                    k <= rep.len(),
                    out@ == before + rep@.take(k as int),
                decreases rep.len() - k,
            {
                out.push(rep[k]);
                k += 1;
                assert(out@ =~= before + rep@.take(k as int));
            }
            assert(rep@.take(k as int) =~= rep@);
            assert(rest.skip(m as int) =~= s@.skip(i + m));
            assert(before + (rep@ + replace_all(rest.skip(m as int), pat@, rep@)) =~= out@
                + replace_all(s@.skip(i + m), pat@, rep@));
            i += m;
        } else {
            let ghost before = out@;
            out.push(s[i]);
            assert(rest.drop_first() =~= s@.skip(i + 1));
            assert(before + (seq![s@[i as int]] + replace_all(rest.drop_first(), pat@, rep@))
                =~= out@ + replace_all(s@.skip(i + 1), pat@, rep@));
            i += 1;
        }
    }
    let ghost rest = s@.skip(i as int);
    assert(replace_all(rest, pat@, rep@) == rest);
    let ghost before = out@;
    let mut t = i;
    while t < s.len()
        invariant
            i <= t <= s.len(),
            out@ == before + s@.subrange(i as int, t as int),
        decreases s.len() - t,
    {
        out.push(s[t]);
        t += 1;
        assert(out@ =~= before + s@.subrange(i as int, t as int));
    }
    assert(s@.subrange(i as int, s.len() as int) =~= rest);
    out
}

// ----- numbers -----
pub open spec fn is_digit(c: char) -> bool {
    '0' <= c <= '9'
}

pub open spec fn all_digits(s: Seq<char>) -> bool {
    forall|i: int| 0 <= i < s.len() ==> is_digit(#[trigger] s[i])
}

/// The number that the decimal digits `s` spell.
pub open spec fn digits_value(s: Seq<char>) -> int
    decreases s.len(),
{
    if s.len() == 0 {
        0
    } else {
        digits_value(s.drop_last()) * 10 + ((s.last() as u32) - 0x30)
    }
}

/// What `str::parse` gives for an integer type whose values are `lo..=hi`:
/// an optional sign (`'-'` only where `lo < 0`), then at least one ASCII
/// digit, and a value in range.
pub open spec fn parse_int(s: Seq<char>, lo: int, hi: int) -> Option<int> {
    if s.len() == 0 {
        None
    } else if (s[0] == '+' || s[0] == '-') && s.len() == 1 {
        None
    } else {
        let neg = s[0] == '-' && lo < 0;
        let ds = if s[0] == '+' || neg {
            s.drop_first()
        } else {
            s
        };
        let v = if neg {
            -digits_value(ds)
        } else {
            digits_value(ds)
        };
        if all_digits(ds) && lo <= v <= hi {
            Some(v)
        } else {
            None
        }
    }
}

proof fn lemma_digits_value_nonneg(s: Seq<char>)
    requires
        all_digits(s),
    ensures
        digits_value(s) >= 0,
    decreases s.len(),
{
    if s.len() > 0 {
        lemma_digits_value_nonneg(s.drop_last());
    }
}

proof fn lemma_digits_value_grows(s: Seq<char>, k: int)
    requires
        all_digits(s),
        0 <= k <= s.len(),
    ensures
        digits_value(s) >= digits_value(s.take(k)),
    decreases s.len() - k,
{
    if k < s.len() {
        assert(s.drop_last().take(k) =~= s.take(k));
        lemma_digits_value_grows(s.drop_last(), k);
        lemma_digits_value_nonneg(s.drop_last());
    } else {
        assert(s.take(k) =~= s);
    }
}

/// Reads an integer as `str::parse` does for a type with values `lo..=hi`.
#[verifier::rlimit(40)]
pub fn parse_int_range(s: &Vec<char>, lo: i128, hi: i128) -> (r: Option<i128>)
    requires
        -0x1_0000_0000_0000_0000 <= lo <= 0 <= hi <= 0x1_0000_0000_0000_0000,
    ensures
        r matches Some(v) ==> parse_int(s@, lo as int, hi as int) == Some(v as int),
        r is None ==> parse_int(s@, lo as int, hi as int) is None,
{
    if s.len() == 0 {
        return None;
    }
    if (s[0] == '+' || s[0] == '-') && s.len() == 1 {
        return None;
    }
    let neg = s[0] == '-' && lo < 0;
    let start: usize = if s[0] == '+' || neg {
        1
    } else {
        0
    };
    let ghost ds = if s@[0] == '+' || neg {
        s@.drop_first()
    } else {
        s@
    };
    assert(ds == s@.skip(start as int));
    let bound: u128 = if neg {
        (0 - lo) as u128
    } else {
        hi as u128
    };
    let mut acc: u128 = 0;
    let mut i: usize = start;
    let mut over = false;
    let mut bad = false;
    assert(ds.take(0) =~= Seq::<char>::empty());
    while i < s.len() && !bad
        invariant
            start <= i <= s.len(),
            ds == s@.skip(start as int),
            bound <= 0x1_0000_0000_0000_0000,
            bad ==> !all_digits(ds),
            !bad ==> all_digits(ds.take(i - start)),
            !bad && !over ==> acc == digits_value(ds.take(i - start)),
            !over ==> acc <= bound,
            !bad && over ==> digits_value(ds.take(i - start)) > bound,
        decreases s.len() - i + (if bad { 0int } else { 1int }),
    {
        let c = s[i];
        let ghost k = i - start;
        assert(ds[k] == c);
        if !('0' <= c && c <= '9') {
            bad = true;
        } else {
            assert(ds.take(k + 1).drop_last() =~= ds.take(k));
            assert(all_digits(ds.take(k + 1)));
            let d = (c as u32 - 0x30) as u128;
            if !over {
                acc = acc * 10 + d;
                if acc > bound {
                    over = true;
                }
            } else {
                proof {
                    lemma_digits_value_nonneg(ds.take(k));
                }
            }
            i += 1;
        }
    }
    if bad {
        return None;
    }
    assert(ds.take(i - start) =~= ds);
    if over {
        return None;
    }
    if neg {
        Some(0 - (acc as i128))
    } else {
        Some(acc as i128)
    }
}

pub fn parse_i32(s: &Vec<char>) -> (r: Option<i32>)
    ensures
        r matches Some(v) ==> parse_int(s@, i32::MIN as int, i32::MAX as int) == Some(v as int),
        r is None ==> parse_int(s@, i32::MIN as int, i32::MAX as int) is None,
{
    match parse_int_range(s, i32::MIN as i128, i32::MAX as i128) {
        Some(v) => Some(v as i32),
        None => None,
    }
}

pub fn parse_u32(s: &Vec<char>) -> (r: Option<u32>)
    ensures
        r matches Some(v) ==> parse_int(s@, 0, u32::MAX as int) == Some(v as int),
        r is None ==> parse_int(s@, 0, u32::MAX as int) is None,
{
    match parse_int_range(s, 0, u32::MAX as i128) {
        Some(v) => Some(v as u32),
        None => None,
    }
}

pub fn parse_u64(s: &Vec<char>) -> (r: Option<u64>)
    ensures
        r matches Some(v) ==> parse_int(s@, 0, u64::MAX as int) == Some(v as int),
        r is None ==> parse_int(s@, 0, u64::MAX as int) is None,
{
    match parse_int_range(s, 0, u64::MAX as i128) {
        Some(v) => Some(v as u64),
        None => None,
    }
}

pub fn parse_usize(s: &Vec<char>) -> (r: Option<usize>)
    ensures
        r matches Some(v) ==> parse_int(s@, 0, usize::MAX as int) == Some(v as int),
        r is None ==> parse_int(s@, 0, usize::MAX as int) is None,
{
    match parse_int_range(s, 0, usize::MAX as i128) {
        Some(v) => Some(v as usize),
        None => None,
    }
}


pub open spec fn pow10(n: nat) -> int
    decreases n,
{
    if n == 0 {
        1
    } else {
        10 * pow10((n - 1) as nat)
    }
}

/// The largest digit count that a `Decimal` keeps.
pub open spec fn decimal_limit() -> int {
    1_000_000_000_000_000_000
}

/// A number written in plain positional notation: its value is
/// `digits / 10^frac_digits`, negated when `negative` holds.
#[derive(Clone, Copy, Debug, PartialEq, Eq)]
pub struct Decimal {
    pub negative: bool,
    pub digits: u64,
    pub frac_digits: u32,
}

/// Scanning the unsigned part of a decimal number: `dot` tells whether the
/// point was met, `val` is the value of the digits met so far, `nd` their
/// count and `nf` the count of those after the point.
#[verifier::opaque]
pub open spec fn decimal_scan(s: Seq<char>, dot: bool, val: int, nd: nat, nf: nat) -> Option<
    (int, nat),
>
    decreases s.len(),
{
    if s.len() == 0 {
        if nd > 0 && val < decimal_limit() && nf <= 18 {
            Some((val, nf))
        } else {
            None
        }
    } else if s[0] == '.' && !dot {
        decimal_scan(s.drop_first(), true, val, nd, nf)
    } else if is_digit(s[0]) {
        if dot && (nf >= 18 || val * 10 + ((s[0] as u32) - 0x30) >= decimal_limit()) {
            decimal_scan(s.drop_first(), dot, val, nd + 1, nf)
        } else {
            decimal_scan(
                s.drop_first(),
                dot,
                val * 10 + ((s[0] as u32) - 0x30),
                nd + 1,
                if dot {
                    nf + 1
                } else {
                    nf
                },
            )
        }
    } else {
        None
    }
}

/// A number in positional notation: an optional sign, digits with at most
/// one point among them and at least one digit, the digits before the point
/// worth less than 10^18. The value is kept to at most 18 digits after the
/// point and 18 digits in all: digits after the point past that precision
/// are dropped.
pub open spec fn parse_plain_decimal(s: Seq<char>) -> Option<Decimal> {
    let signed = s.len() > 0 && (s[0] == '+' || s[0] == '-');
    let body = if signed {
        s.drop_first()
    } else {
        s
    };
    match decimal_scan(body, false, 0, 0, 0) {
        Some((v, f)) => Some(
            Decimal { negative: signed && s[0] == '-', digits: v as u64, frac_digits: f as u32 },
        ),
        None => None,
    }
}

proof fn lemma_decimal_scan_step(s: Seq<char>, dot: bool, val: int, nd: nat, nf: nat)
    requires
        s.len() > 0,
    ensures
        decimal_scan(s, dot, val, nd, nf) == (if s[0] == '.' && !dot {
            decimal_scan(s.drop_first(), true, val, nd, nf)
        } else if is_digit(s[0]) {
            if dot && (nf >= 18 || val * 10 + ((s[0] as u32) - 0x30) >= decimal_limit()) {
                decimal_scan(s.drop_first(), dot, val, nd + 1, nf)
            } else {
                decimal_scan(
                    s.drop_first(),
                    dot,
                    val * 10 + ((s[0] as u32) - 0x30),
                    nd + 1,
                    if dot {
                        nf + 1
                    } else {
                        nf
                    },
                )
            }
        } else {
            None
        }),
{
    reveal_with_fuel(decimal_scan, 1);
}

proof fn lemma_decimal_scan_end(dot: bool, val: int, nd: nat, nf: nat)
    ensures
        decimal_scan(Seq::empty(), dot, val, nd, nf) == (if nd > 0 && val < decimal_limit() && nf
            <= 18 {
            Some((val, nf))
        } else {
            None
        }),
{
    reveal_with_fuel(decimal_scan, 1);
}

proof fn lemma_decimal_scan_big(s: Seq<char>, dot: bool, val: int, nd: nat, nf: nat)
    requires
        val >= decimal_limit(),
    ensures
        decimal_scan(s, dot, val, nd, nf) is None,
    decreases s.len(),
{
    if s.len() == 0 {
        assert(s =~= Seq::<char>::empty());
        lemma_decimal_scan_end(dot, val, nd, nf);
    } else {
        lemma_decimal_scan_step(s, dot, val, nd, nf);
        if s[0] == '.' && !dot {
            lemma_decimal_scan_big(s.drop_first(), true, val, nd, nf);
        } else if is_digit(s[0]) {
            if dot && (nf >= 18 || val * 10 + ((s[0] as u32) - 0x30) >= decimal_limit()) {
                lemma_decimal_scan_big(s.drop_first(), dot, val, nd + 1, nf);
            } else {
                lemma_decimal_scan_big(
                    s.drop_first(),
                    dot,
                    val * 10 + ((s[0] as u32) - 0x30),
                    nd + 1,
                    if dot {
                        nf + 1
                    } else {
                        nf
                    },
                );
            }
        }
    }
}

/// Reads a number in positional notation as `parse_plain_decimal` describes it.
#[verifier::rlimit(40)]
pub fn parse_plain_decimal_chars(s: &Vec<char>) -> (r: Option<Decimal>)
    ensures
        r == parse_plain_decimal(s@),
        r matches Some(d) ==> d.frac_digits <= 18 && d.digits < decimal_limit(),
{
    let signed = s.len() > 0 && (s[0] == '+' || s[0] == '-');
    let negative = signed && s[0] == '-';
    let start: usize = if signed {
        1
    } else {
        0
    };
    let ghost body = if signed {
        s@.drop_first()
    } else {
        s@
    };
    assert(body =~= s@.skip(start as int));
    let mut dot = false;
    let mut val: u64 = 0;
    let mut nd: u64 = 0;
    let mut nf: u32 = 0;
    let mut i: usize = start;
    while i < s.len()
        invariant
            start <= i <= s.len(),
            body =~= s@.skip(start as int),
            signed == (s.len() > 0 && (s@[0] == '+' || s@[0] == '-')),
            negative == (signed && s@[0] == '-'),
            body == (if signed { s@.drop_first() } else { s@ }),
            nd <= i,
            nf <= 19,
            val < decimal_limit(),
            decimal_scan(body, false, 0, 0, 0) == decimal_scan(
                s@.skip(i as int),
                dot,
                val as int,
                nd as nat,
                nf as nat,
            ),
        decreases s.len() - i,
    {
        let c = s[i];
        let ghost rest = s@.skip(i as int);
        assert(rest.drop_first() =~= s@.skip(i + 1));
        assert(rest[0] == c);
        proof {
            lemma_decimal_scan_step(rest, dot, val as int, nd as nat, nf as nat);
        }
        if c == '.' && !dot {
            dot = true;
        } else if '0' <= c && c <= '9' {
            let d = (c as u32 - 0x30) as u64;
            assert(d as int == (rest[0] as u32) - 0x30);
            let nv: u128 = val as u128 * 10 + d as u128;
            if dot && (nf >= 18 || nv >= 1_000_000_000_000_000_000u128) {
                nd += 1;
            } else {
                let ghost nf2: nat = if dot {
                    (nf + 1) as nat
                } else {
                    nf as nat
                };
                assert(decimal_scan(rest, dot, val as int, nd as nat, nf as nat) == decimal_scan(
                    s@.skip(i + 1),
                    dot,
                    nv as int,
                    (nd + 1) as nat,
                    nf2,
                ));
                if nv >= 1_000_000_000_000_000_000u128 {
                    proof {
                        lemma_decimal_scan_big(s@.skip(i + 1), dot, nv as int, (nd + 1) as nat, nf2);
                    }
                    return None;
                }
                val = nv as u64;
                nd += 1;
                if dot {
                    nf += 1;
                }
            }
        } else {
            return None;
        }
        i += 1;
    }
    proof {
        assert(s@.skip(i as int) =~= Seq::<char>::empty());
        lemma_decimal_scan_end(dot, val as int, nd as nat, nf as nat);
    }
    if nd > 0 && nf <= 18 {
        Some(Decimal { negative, digits: val, frac_digits: nf })
    } else {
        None
    }
}



/// Where the exponent mark (`e` or `E`) first stands in `s`.
pub open spec fn exp_mark(s: Seq<char>) -> Option<int>
    decreases s.len(),
{
    if s.len() == 0 {
        None
    } else if s[0] == 'e' || s[0] == 'E' {
        Some(0)
    } else {
        match exp_mark(s.drop_first()) {
            Some(k) => Some(k + 1),
            None => None,
        }
    }
}

/// `d` times ten to the power `e`, as a `Decimal`: digits past the 18th
/// after the point are dropped; a value of 10^18 or more has no `Decimal`.
pub open spec fn scaled(d: Decimal, e: int) -> Option<Decimal> {
    let tf = d.frac_digits - e;
    if 0 <= tf <= 18 {
        Some(Decimal { frac_digits: tf as u32, ..d })
    } else if tf > 18 {
        Some(Decimal { digits: ((d.digits as int) / pow10((tf - 18) as nat)) as u64, frac_digits: 18, ..d })
    } else {
        let m = d.digits * pow10((-tf) as nat);
        if m < decimal_limit() {
            Some(Decimal { digits: m as u64, frac_digits: 0, ..d })
        } else {
            None
        }
    }
}

/// A decimal number: positional notation (`parse_plain_decimal`), followed
/// where it is written so by an exponent, `e` or `E` and a 32-bit integer
/// with an optional sign, as Rust writes floating-point literals. The value
/// is kept to 18 digits after the point (further digits are dropped), and
/// is read only where it is below 10^18.
pub open spec fn parse_decimal(s: Seq<char>) -> Option<Decimal> {
    match exp_mark(s) {
        None => parse_plain_decimal(s),
        Some(k) => match parse_plain_decimal(s.take(k)) {
            None => None,
            Some(d) => match parse_int(s.skip(k + 1), i32::MIN as int, i32::MAX as int) {
                None => None,
                Some(e) => scaled(d, e),
            },
        },
    }
}

pub proof fn lemma_pow10_le(k: nat, m: nat)
    requires
        k <= m,
    ensures
        1 <= pow10(k) <= pow10(m),
    decreases m,
{
    if m > k {
        lemma_pow10_le(k, (m - 1) as nat);
    } else if k > 0 {
        lemma_pow10_le((k - 1) as nat, (k - 1) as nat);
    }
}

fn exp_mark_exec(s: &Vec<char>) -> (r: Option<usize>)
    ensures
        match exp_mark(s@) {
            Some(k) => r matches Some(j) && j == k,
            None => r is None,
        },
        r matches Some(j) ==> j < s.len(),
{
    let mut i: usize = 0;
    assert(s@.skip(0) =~= s@);
    while i < s.len()
        invariant
            i <= s.len(),
            exp_mark(s@) == (match exp_mark(s@.skip(i as int)) {
                Some(k) => Some(k + i),
                None => None::<int>,
            }),
        decreases s.len() - i,
    {
        let ghost rest = s@.skip(i as int);
        assert(rest[0] == s@[i as int]);
        if s[i] == 'e' || s[i] == 'E' {
            return Some(i);
        }
        assert(rest.drop_first() =~= s@.skip(i + 1));
        i += 1;
    }
    assert(s@.skip(i as int) =~= Seq::<char>::empty());
    None
}

fn scaled_exec(d: Decimal, e: i32) -> (r: Option<Decimal>)
    requires
        d.frac_digits <= 18,
        d.digits < decimal_limit(),
    ensures
        r == scaled(d, e as int),
        r matches Some(x) ==> x.frac_digits <= 18 && x.digits < decimal_limit(),
{
    let tf: i64 = d.frac_digits as i64 - e as i64;
    if tf >= 0 {
        if tf <= 18 {
            Some(Decimal { frac_digits: tf as u32, ..d })
        } else {
            let n: i64 = tf - 18;
            if n > 18 {
                proof {
                    lemma_pow10_le(18, n as nat);
                    reveal_with_fuel(pow10, 19);
                    assert(pow10(18) == 1_000_000_000_000_000_000);
                    assert((d.digits as int) / pow10(n as nat) == 0) by (nonlinear_arith)
                        requires
                            0 <= d.digits < pow10(n as nat),
                    ;
                }
                return Some(Decimal { digits: 0, frac_digits: 18, ..d });
            }
            let mut q: u64 = d.digits;
            let mut k: i64 = 0;
            proof {
                reveal_with_fuel(pow10, 1);
                assert(d.digits / 1 == d.digits) by (nonlinear_arith);
            }
            while k < n
                invariant
                    0 <= k <= n <= 18,
                    q == (d.digits as int) / pow10(k as nat),
                    q <= d.digits,
                    d.digits < decimal_limit(),
                decreases n - k,
            {
                proof {
                    lemma_pow10_le(0, k as nat);
                    vstd::arithmetic::div_mod::lemma_div_denominator(d.digits as int, pow10(k as nat), 10);
                    assert(pow10((k + 1) as nat) == 10 * pow10(k as nat));
                    assert(pow10(k as nat) * 10 == 10 * pow10(k as nat)) by (nonlinear_arith);
                }
                q = q / 10;
                k += 1;
            }
            Some(Decimal { digits: q, frac_digits: 18, ..d })
        }
    } else {
        let n: i64 = -tf;
        if d.digits == 0 {
            assert(0 * pow10(n as nat) == 0) by (nonlinear_arith);
            return Some(Decimal { digits: 0, frac_digits: 0, ..d });
        }
        if n > 18 {
            proof {
                lemma_pow10_le(18, n as nat);
                reveal_with_fuel(pow10, 19);
                assert(pow10(18) == 1_000_000_000_000_000_000);
                assert(d.digits * pow10(n as nat) >= pow10(n as nat)) by (nonlinear_arith)
                    requires
                        d.digits >= 1,
                        pow10(n as nat) >= 1,
                ;
            }
            return None;
        }
        let mut m: u128 = d.digits as u128;
        let mut k: i64 = 0;
        while k < n
            invariant
                0 <= k <= n <= 18,
                m == d.digits * pow10(k as nat),
                d.digits < decimal_limit(),
            decreases n - k,
        {
            proof {
                lemma_pow10_le(k as nat, 17);
                reveal_with_fuel(pow10, 18);
                assert(pow10(17) == 100_000_000_000_000_000);
                assert(d.digits * pow10(k as nat) <= d.digits * 100_000_000_000_000_000) by (
                nonlinear_arith)
                    requires
                        pow10(k as nat) <= 100_000_000_000_000_000,
                        d.digits >= 0,
                ;
                assert(d.digits * pow10((k + 1) as nat) == (d.digits * pow10(k as nat)) * 10) by (
                nonlinear_arith)
                    requires
                        pow10((k + 1) as nat) == 10 * pow10(k as nat),
                ;
            }
            m = m * 10;
            k += 1;
        }
        if m < 1_000_000_000_000_000_000u128 {
            Some(Decimal { digits: m as u64, frac_digits: 0, ..d })
        } else {
            None
        }
    }
}

/// Reads a decimal number as `parse_decimal` describes it.
pub fn parse_decimal_chars(s: &Vec<char>) -> (r: Option<Decimal>)
    ensures
        r == parse_decimal(s@),
        r matches Some(d) ==> d.frac_digits <= 18 && d.digits < decimal_limit(),
{
    match exp_mark_exec(s) {
        None => parse_plain_decimal_chars(s),
        Some(k) => {
            let mant = slice(s, 0, k);
            assert(mant@ =~= s@.take(k as int));
            match parse_plain_decimal_chars(&mant) {
                None => None,
                Some(d) => {
                    let ex = slice(s, k + 1, s.len());
                    assert(ex@ =~= s@.skip(k + 1));
                    match parse_i32(&ex) {
                        None => None,
                        Some(e) => scaled_exec(d, e),
                    }
                },
            }
        },
    }
}

// ----- formatting numbers -----
/// The decimal digit for `d` (0 to 9).
pub open spec fn digit_char(d: nat) -> char {
    if d == 0 {
        '0'
    } else if d == 1 {
        '1'
    } else if d == 2 {
        '2'
    } else if d == 3 {
        '3'
    } else if d == 4 {
        '4'
    } else if d == 5 {
        '5'
    } else if d == 6 {
        '6'
    } else if d == 7 {
        '7'
    } else if d == 8 {
        '8'
    } else {
        '9'
    }
}

/// The decimal notation of `n`, as `{}` formats an unsigned integer.
pub open spec fn decimal_chars(n: nat) -> Seq<char>
    decreases n,
{
    if n < 10 {
        seq![digit_char(n)]
    } else {
        decimal_chars(n / 10).push(digit_char(n % 10))
    }
}

pub(crate) fn digit_exec(d: u64) -> (c: char)
    requires
        d < 10,
    ensures
        c == digit_char(d as nat),
{
    if d == 0 {
        '0'
    } else if d == 1 {
        '1'
    } else if d == 2 {
        '2'
    } else if d == 3 {
        '3'
    } else if d == 4 {
        '4'
    } else if d == 5 {
        '5'
    } else if d == 6 {
        '6'
    } else if d == 7 {
        '7'
    } else if d == 8 {
        '8'
    } else {
        '9'
    }
}

/// The decimal digits of `n`.
pub fn decimal_vec(n: u64) -> (v: Vec<char>)
    ensures
        v@ == decimal_chars(n as nat),
    decreases n,
{
    if n < 10 {
        let mut v: Vec<char> = Vec::new();
        v.push(digit_exec(n));
        assert(v@ =~= decimal_chars(n as nat));
        v
    } else {
        let mut v = decimal_vec(n / 10);
        v.push(digit_exec(n % 10));
        v
    }
}

/// The decimal notation of `n` as a string.
pub fn decimal(n: u64) -> (s: String)
    ensures
        s@ == decimal_chars(n as nat),
{
    string_of(&decimal_vec(n))
}

/// `a` followed by `b`.
pub fn concat_str(a: String, b: &str) -> (s: String)
    ensures
        s@ == a@ + b@,
{
    let mut a = a;
    a.append(b);
    a
}

/// The decimal notation of a signed integer, with `-` before a negative one.
pub open spec fn signed_decimal_chars(n: int) -> Seq<char> {
    if n < 0 {
        seq!['-'] + decimal_chars((-n) as nat)
    } else {
        decimal_chars(n as nat)
    }
}

/// The decimal notation of a signed integer as a string.
pub fn signed_decimal(n: i32) -> (s: String)
    ensures
        s@ == signed_decimal_chars(n as int),
{
    if n < 0 {
        let m: i64 = -(n as i64);
        proof {
            reveal_strlit("-");
        }
        assert("-"@ =~= seq!['-']);
        concat_str("-".to_owned(), decimal(m as u64).as_str())
    } else {
        decimal(n as u64)
    }
}

} // verus!
