//! Character-level text helpers: Unicode whitespace trimming, line splitting
//! with the conventions of `str::lines`, unsigned decimal parsing and printing.

use vstd::prelude::*;
use vstd::std_specs::iter::IteratorSpec;
use vstd::string::StringExecFns;

verus! {

/// Appends one character to a `String` (std's `String::push`).
/// Claims that the new contents are the old contents followed by `c`.
#[verifier::external_body]
pub(crate) fn push_char(s: &mut String, c: char)
    ensures
        final(s)@ == old(s)@.push(c),
{
    s.push(c);
}

/// The characters of `s`, in order.
pub fn chars_of(s: &str) -> (v: Vec<char>)
    ensures
        v@ == s@,
{
    let mut v: Vec<char> = Vec::new();
    for c in iter: s.chars()
        invariant
            v@ == iter.seq().take(iter.index()),
    {
        v.push(c);
        assert(v@ =~= iter.seq().take(iter.index() + 1));
    }
    assert(v@ =~= s@);
    v
}

/// A `String` holding exactly the characters of `v`.
pub fn string_of(v: &[char]) -> (s: String)
    ensures
        s@ == v@,
{
    let mut s = String::new();
    let mut i: usize = 0;
    while i < v.len()
        invariant
            i <= v@.len(),
            s@ == v@.take(i as int),
        decreases v@.len() - i,
    {
        push_char(&mut s, v[i]);
        assert(v@.take(i as int).push(v@[i as int]) =~= v@.take(i + 1));
        i = i + 1;
    }
    assert(v@.take(v@.len() as int) =~= v@);
    s
}

/// Unicode `White_Space` code points, the set that `char::is_whitespace` and
/// `str::trim` use.
pub open spec fn is_space(c: char) -> bool {
    let u = c as int;
    ||| 0x9 <= u <= 0xd
    ||| u == 0x20
    ||| u == 0x85
    ||| u == 0xa0
    ||| u == 0x1680
    ||| 0x2000 <= u <= 0x200a
    ||| u == 0x2028
    ||| u == 0x2029
    ||| u == 0x202f
    ||| u == 0x205f
    ||| u == 0x3000
}

/// `s` without its leading whitespace.
pub open spec fn trim_start(s: Seq<char>) -> Seq<char>
    decreases s.len(),
{
    if s.len() > 0 && is_space(s[0]) {
        trim_start(s.drop_first())
    } else {
        s
    }
}

/// `s` without its trailing whitespace.
pub open spec fn trim_end(s: Seq<char>) -> Seq<char>
    decreases s.len(),
{
    if s.len() > 0 && is_space(s.last()) {
        trim_end(s.drop_last())
    } else {
        s
    }
}

/// `s` without leading and trailing whitespace.
pub open spec fn trim_ws(s: Seq<char>) -> Seq<char> {
    trim_end(trim_start(s))
}

/// Whether `c` is Unicode whitespace.
pub fn is_space_char(c: char) -> (b: bool)
    ensures
        b == is_space(c),
{
    let u = c as u32;
    (0x9 <= u && u <= 0xd) || u == 0x20 || u == 0x85 || u == 0xa0 || u == 0x1680 || (0x2000
        <= u && u <= 0x200a) || u == 0x2028 || u == 0x2029 || u == 0x202f || u == 0x205f || u
        == 0x3000
}

proof fn lemma_trim_start_skip(s: Seq<char>, i: int)
    requires
        0 <= i < s.len(),
        is_space(s[i]),
    ensures
        trim_start(s.skip(i)) == trim_start(s.skip(i + 1)),
{
    assert(s.skip(i).drop_first() =~= s.skip(i + 1));
}

proof fn lemma_trim_end_take(s: Seq<char>, j: int)
    requires
        0 < j <= s.len(),
        is_space(s[j - 1]),
    ensures
        trim_end(s.take(j)) == trim_end(s.take(j - 1)),
{
    assert(s.take(j).drop_last() =~= s.take(j - 1));
}

/// The bounds `lo..hi` of `v` that remain once surrounding whitespace is cut.
fn trim_bounds(v: &Vec<char>) -> (r: (usize, usize))
    ensures
        r.0 <= r.1 <= v@.len(),
        v@.subrange(r.0 as int, r.1 as int) == trim_ws(v@),
{
    let n = v.len();
    let mut lo: usize = 0;
    assert(v@.skip(0) =~= v@);
    while lo < n && is_space_char(v[lo])
        invariant
            lo <= n == v@.len(),
            trim_start(v@) == trim_start(v@.skip(lo as int)),
        decreases n - lo,
    {
        proof {
            lemma_trim_start_skip(v@, lo as int);
        }
        lo = lo + 1;
    }
    let ghost t = v@.skip(lo as int);
    assert(trim_start(v@) == t) by {
        assert(v@.skip(lo as int) =~= t);
    }
    let mut hi: usize = n;
    assert(t.take(hi - lo) =~= t);
    while hi > lo && is_space_char(v[hi - 1])
        invariant
            lo <= hi <= n == v@.len(),
            t == v@.skip(lo as int),
            trim_end(t) == trim_end(t.take(hi - lo)),
        decreases hi - lo,
    {
        proof {
            assert(t[hi - lo - 1] == v@[hi - 1]);
            lemma_trim_end_take(t, hi - lo);
        }
        hi = hi - 1;
    }
    assert(t.take(hi - lo) =~= v@.subrange(lo as int, hi as int));
    (lo, hi)
}

/// `s` with leading and trailing whitespace removed (as `str::trim` does).
pub fn trim(s: &str) -> (r: String)
    ensures
        r@ == trim_ws(s@),
{
    let v = chars_of(s);
    let (lo, hi) = trim_bounds(&v);
    string_of(vstd::slice::slice_subrange(v.as_slice(), lo, hi))
}

/// Whether `a` and `b` hold the same characters.
pub fn same_text(a: &str, b: &str) -> (r: bool)
    ensures
        r == (a@ == b@),
{
    let x = chars_of(a);
    let y = chars_of(b);
    if x.len() != y.len() {
        return false;
    }
    let mut i: usize = 0;
    while i < x.len()
        invariant
            i <= x@.len() == y@.len(),
            x@ == a@,
            y@ == b@,
            forall|j: int| 0 <= j < i ==> x@[j] == y@[j],
        decreases x@.len() - i,
    {
        if x[i] != y[i] {
            assert(x@[i as int] != y@[i as int]);
            return false;
        }
        i = i + 1;
    }
    assert(x@ =~= y@);
    true
}

/// Number of characters before the first `'\n'` of `s` (all of `s` if none).
pub open spec fn line_len(s: Seq<char>) -> nat
    decreases s.len(),
{
    if s.len() == 0 || s[0] == '\n' {
        0
    } else {
        1 + line_len(s.drop_first())
    }
}

/// `l` without one trailing carriage return.
pub open spec fn strip_cr(l: Seq<char>) -> Seq<char> {
    if l.len() > 0 && l.last() == '\r' {
        l.drop_last()
    } else {
        l
    }
}

/// The lines of `s` as `str::lines` yields them: split at `"\n"` or `"\r\n"`,
/// terminators dropped, the final terminator optional.
pub open spec fn split_lines(s: Seq<char>) -> Seq<Seq<char>>
    decreases s.len(),
{
    if s.len() == 0 {
        seq![]
    } else {
        let k = line_len(s);
        if k < s.len() {
            seq![strip_cr(s.take(k as int))] + split_lines(s.skip((k + 1) as int))
        } else {
            seq![s]
        }
    }
}

/// The contents of a sequence of strings.
pub open spec fn texts(v: Seq<String>) -> Seq<Seq<char>> {
    v.map_values(|x: String| x@)
}

proof fn lemma_line_len_at(t: Seq<char>, k: int)
    requires
        0 <= k <= t.len(),
        forall|j: int| 0 <= j < k ==> t[j] != '\n',
        k == t.len() || t[k] == '\n',
    ensures
        line_len(t) == k,
    decreases k,
{
    if k > 0 {
        lemma_line_len_at(t.drop_first(), k - 1);
    }
}

proof fn lemma_line_len_facts(t: Seq<char>)
    ensures
        line_len(t) <= t.len(),
        forall|j: int| 0 <= j < line_len(t) ==> t[j] != '\n',
        line_len(t) < t.len() ==> t[line_len(t) as int] == '\n',
    decreases t.len(),
{
    if t.len() > 0 && t[0] != '\n' {
        lemma_line_len_facts(t.drop_first());
        assert forall|j: int| 0 <= j < line_len(t) implies t[j] != '\n' by {
            if j > 0 {
                assert(t[j] == t.drop_first()[j - 1]);
            }
        }
    }
}

/// A final line ending changes nothing: for a non-empty text not already
/// ending in a line ending, appending `"\n"` or `"\r\n"` gives the same lines.
pub proof fn law_final_line_ending_is_optional(s: Seq<char>)
    requires
        s.len() > 0,
        s.last() != '\n',
    ensures
        s.last() != '\r' ==> split_lines(s + seq!['\n']) == split_lines(s),
        split_lines(s + seq!['\r', '\n']) == split_lines(s),
    decreases s.len(),
{
    let e1 = seq!['\n'];
    let e2 = seq!['\r', '\n'];
    lemma_line_len_facts(s);
    let k = line_len(s) as int;
    if k < s.len() {
        let rest = s.skip(k + 1);
        assert(rest.len() > 0);
        assert(rest.last() == s.last());
        law_final_line_ending_is_optional(rest);
        assert forall|j: int| 0 <= j < k implies (s + e1)[j] != '\n' by {
            assert((s + e1)[j] == s[j]);
        }
        assert forall|j: int| 0 <= j < k implies (s + e2)[j] != '\n' by {
            assert((s + e2)[j] == s[j]);
        }
        assert((s + e1)[k] == s[k]);
        assert((s + e2)[k] == s[k]);
        lemma_line_len_at(s + e1, k);
        lemma_line_len_at(s + e2, k);
        assert((s + e1).take(k) =~= s.take(k));
        assert((s + e2).take(k) =~= s.take(k));
        assert((s + e1).skip(k + 1) =~= rest + e1);
        assert((s + e2).skip(k + 1) =~= rest + e2);
        assert(split_lines(s) == seq![strip_cr(s.take(k))] + split_lines(rest));
        assert(split_lines(s + e1) == seq![strip_cr(s.take(k))] + split_lines(rest + e1));
        assert(split_lines(s + e2) == seq![strip_cr(s.take(k))] + split_lines(rest + e2));
    } else {
        assert forall|j: int| 0 <= j < s.len() implies (s + e1)[j] != '\n' by {
            assert((s + e1)[j] == s[j]);
        }
        assert forall|j: int| 0 <= j < s.len() + 1 implies (s + e2)[j] != '\n' by {
            if j < s.len() {
                assert((s + e2)[j] == s[j]);
            }
        }
        lemma_line_len_at(s + e1, s.len() as int);
        lemma_line_len_at(s + e2, (s.len() + 1) as int);
        assert((s + e1).take(s.len() as int) =~= s);
        assert((s + e2).take((s.len() + 1) as int) =~= s.push('\r'));
        assert(s.push('\r').drop_last() =~= s);
        assert((s + e1).skip((s.len() + 1) as int) =~= Seq::<char>::empty());
        assert((s + e2).skip((s.len() + 2) as int) =~= Seq::<char>::empty());
        assert(split_lines(s) == seq![s]);
        assert(split_lines(Seq::<char>::empty()) == Seq::<Seq<char>>::empty());
        assert(split_lines(s + e1) == seq![strip_cr(s)] + split_lines(Seq::<char>::empty()));
        assert(split_lines(s + e2) == seq![strip_cr(s.push('\r'))] + split_lines(Seq::<char>::empty()));
        assert(seq![strip_cr(s)] + Seq::<Seq<char>>::empty() =~= seq![strip_cr(s)]);
        assert(seq![strip_cr(s.push('\r'))] + Seq::<Seq<char>>::empty() =~= seq![s]);
    }
}

/// Lines of two texts, the first ending in a line feed, are the lines of
/// each in turn.
pub proof fn lemma_split_lines_append(a: Seq<char>, b: Seq<char>)
    requires
        a.len() > 0,
        a.last() == '\n',
    ensures
        split_lines(a + b) == split_lines(a) + split_lines(b),
    decreases a.len(),
{
    lemma_line_len_facts(a);
    let k = line_len(a) as int;
    assert(k < a.len()) by {
        if k == a.len() {
            assert(a[a.len() - 1] != '\n');
        }
    }
    assert forall|j: int| 0 <= j < k implies (a + b)[j] != '\n' by {
        assert((a + b)[j] == a[j]);
    }
    assert((a + b)[k] == a[k]);
    lemma_line_len_at(a + b, k);
    assert((a + b).take(k) =~= a.take(k));
    let r = a.skip(k + 1);
    assert((a + b).skip(k + 1) =~= r + b);
    assert(split_lines(a) == seq![strip_cr(a.take(k))] + split_lines(r));
    assert(split_lines(a + b) == seq![strip_cr(a.take(k))] + split_lines(r + b));
    if r.len() == 0 {
        assert(r + b =~= b);
        assert(split_lines(r) == Seq::<Seq<char>>::empty());
    } else {
        assert(r.last() == a.last());
        lemma_split_lines_append(r, b);
    }
    assert(split_lines(a + b) =~= split_lines(a) + split_lines(b));
}

/// A line without line feed, not ending in a carriage return, followed by a
/// line feed is that one line.
pub proof fn lemma_split_one_line(l: Seq<char>)
    requires
        forall|j: int| 0 <= j < l.len() ==> l[j] != '\n',
        l.len() == 0 || l.last() != '\r',
    ensures
        split_lines(l + seq!['\n']) == seq![l],
{
    let t = l + seq!['\n'];
    assert forall|j: int| 0 <= j < l.len() implies t[j] != '\n' by {
        assert(t[j] == l[j]);
    }
    lemma_line_len_at(t, l.len() as int);
    assert(t.take(l.len() as int) =~= l);
    assert(t.skip((l.len() + 1) as int) =~= Seq::<char>::empty());
    assert(split_lines(t) == seq![strip_cr(l)] + split_lines(Seq::<char>::empty()));
    assert(seq![strip_cr(l)] + Seq::<Seq<char>>::empty() =~= seq![l]);
}

/// Splits `text` into lines as `str::lines` does.
pub fn lines_of(text: &str) -> (lines: Vec<String>)
    ensures
        texts(lines@) == split_lines(text@),
{
    let v = chars_of(text);
    let n = v.len();
    let ghost s = v@;
    let mut out: Vec<String> = Vec::new();
    let mut start: usize = 0;
    let mut i: usize = 0;
    assert(s.skip(0) =~= s);
    while i < n
        invariant
            start <= i <= n == s.len(),
            s == v@,
            forall|j: int| start <= j < i ==> s[j] != '\n',
            texts(out@) + split_lines(s.skip(start as int)) == split_lines(s),
        decreases n - i,
    {
        if v[i] == '\n' {
            let ghost t = s.skip(start as int);
            proof {
                lemma_line_len_at(t, i - start);
                assert(t.skip(i - start + 1) =~= s.skip(i + 1));
                assert(t.take(i - start) =~= s.subrange(start as int, i as int));
            }
            let end = if i > start && v[i - 1] == '\r' {
                i - 1
            } else {
                i
            };
            assert(s.subrange(start as int, end as int) == strip_cr(s.subrange(start as int, i as int))) by {
                if i > start && s[i - 1] == '\r' {
                    assert(s.subrange(start as int, i as int).drop_last() =~= s.subrange(start as int, end as int));
                }
            }
            let line = string_of(vstd::slice::slice_subrange(v.as_slice(), start, end));
            let ghost before = out@;
            out.push(line);
            assert(texts(out@) =~= texts(before).push(line@));
            assert(split_lines(t) == seq![strip_cr(t.take(i - start))] + split_lines(t.skip(i - start + 1)));
            assert(texts(out@) + split_lines(s.skip(i + 1)) =~= texts(before) + split_lines(t));
            start = i + 1;
        }
        i = i + 1;
    }
    if start < n {
        let ghost t = s.skip(start as int);
        proof {
            lemma_line_len_at(t, n - start);
            assert(t =~= s.subrange(start as int, n as int));
        }
        let line = string_of(vstd::slice::slice_subrange(v.as_slice(), start, n));
        let ghost before = out@;
        out.push(line);
        assert(texts(out@) =~= texts(before).push(line@));
        assert(split_lines(t) == seq![t]);
        assert(texts(out@) =~= texts(before) + split_lines(t));
    } else {
        assert(s.skip(start as int) =~= Seq::<char>::empty());
        assert(texts(out@) + split_lines(s.skip(start as int)) =~= texts(out@));
    }
    out
}

/// Whether `c` is an ASCII decimal digit.
pub open spec fn is_digit(c: char) -> bool {
    '0' as int <= c as int <= '9' as int
}

/// The numeric value of a decimal digit character.
pub open spec fn digit_value(c: char) -> nat {
    (c as int - '0' as int) as nat
}

/// The value of a string of decimal digits, most significant first.
pub open spec fn digits_value(s: Seq<char>) -> nat
    decreases s.len(),
{
    if s.len() == 0 {
        0
    } else {
        digits_value(s.drop_last()) * 10 + digit_value(s.last())
    }
}

/// The part of `s` after an optional leading `'+'`.
pub open spec fn unsigned_digits(s: Seq<char>) -> Seq<char> {
    if s.len() > 0 && s[0] == '+' {
        s.drop_first()
    } else {
        s
    }
}

/// Whether every character of `d` is a decimal digit.
pub open spec fn all_digits(d: Seq<char>) -> bool {
    forall|i: int| 0 <= i < d.len() ==> is_digit(#[trigger] d[i])
}

/// What `str::parse::<u64>` accepts: an optional `'+'`, then one or more
/// ASCII digits whose value fits in a `u64`.
pub open spec fn parse_u64_spec(s: Seq<char>) -> Option<u64> {
    let d = unsigned_digits(s);
    if d.len() > 0 && all_digits(d) && digits_value(d) <= u64::MAX {
        Some(digits_value(d) as u64)
    } else {
        None
    }
}

proof fn lemma_digits_value_grows(d: Seq<char>, i: int)
    requires
        0 <= i <= d.len(),
    ensures
        digits_value(d.take(i)) <= digits_value(d),
    decreases d.len() - i,
{
    if i < d.len() {
        lemma_digits_value_grows(d, i + 1);
        assert(d.take(i + 1).drop_last() =~= d.take(i));
        assert(digits_value(d.take(i + 1)) == digits_value(d.take(i)) * 10 + digit_value(d[i]));
    } else {
        assert(d.take(i) =~= d);
    }
}

/// Parses an unsigned decimal number as `str::parse::<u64>` does.
pub fn parse_u64(s: &str) -> (r: Option<u64>)
    ensures
        r == parse_u64_spec(s@),
{
    let v = chars_of(s);
    let n = v.len();
    let first: usize = if n > 0 && v[0] == '+' {
        1
    } else {
        0
    };
    let ghost d = unsigned_digits(s@);
    assert(d =~= v@.skip(first as int));
    if first == n {
        return None;
    }
    let mut k: usize = first;
    while k < n
        invariant
            first <= k <= n == v@.len(),
            d == v@.skip(first as int),
            d == unsigned_digits(s@),
            forall|j: int| 0 <= j < k - first ==> is_digit(#[trigger] d[j]),
        decreases n - k,
    {
        let c = v[k];
        if !('0' <= c && c <= '9') {
            assert(!is_digit(d[k - first]));
            assert(!all_digits(d));
            return None;
        }
        k = k + 1;
    }
    assert(all_digits(d));
    let mut acc: u64 = 0;
    let mut i: usize = first;
    assert(d.take(0) =~= Seq::<char>::empty());
    while i < n
        invariant
            first <= i <= n == v@.len(),
            d == v@.skip(first as int),
            d == unsigned_digits(s@),
            all_digits(d),
            acc == digits_value(d.take(i - first)),
        decreases n - i,
    {
        let c = v[i];
        assert(is_digit(d[i - first]));
        let dv = (c as u32 - '0' as u32) as u64;
        assert(d.take(i - first + 1).drop_last() =~= d.take(i - first));
        assert(dv == digit_value(d[i - first]));
        if acc > (u64::MAX - dv) / 10 {
            proof {
                assert(digits_value(d.take(i - first + 1)) > u64::MAX) by (nonlinear_arith)
                    requires
                        acc > (u64::MAX - dv) / 10,
                        digits_value(d.take(i - first + 1)) == acc * 10 + dv,
                        dv <= 9,
                ;
                lemma_digits_value_grows(d, i - first + 1);
            }
            return None;
        }
        acc = acc * 10 + dv;
        i = i + 1;
    }
    assert(d.take(i - first) =~= d);
    Some(acc)
}

/// The decimal digit character for `d < 10`.
pub open spec fn digit_char(d: nat) -> char {
    ('0' as int + d) as char
}

/// The decimal representation of `n`, without sign or leading zeros.
pub open spec fn decimal(n: nat) -> Seq<char>
    decreases n,
{
    if n < 10 {
        seq![digit_char(n)]
    } else {
        decimal(n / 10) + seq![digit_char(n % 10)]
    }
}

/// The decimal representation of `n` is a non-empty run of digits worth `n`.
pub proof fn lemma_decimal_digits(n: nat)
    ensures
        decimal(n).len() > 0,
        all_digits(decimal(n)),
        digits_value(decimal(n)) == n,
        decimal(n)[0] != '+',
    decreases n,
{
    if n < 10 {
        assert(digit_value(digit_char(n)) == n);
        assert(decimal(n).drop_last() =~= Seq::<char>::empty());
        assert(digits_value(Seq::<char>::empty()) == 0);
        assert(digits_value(decimal(n)) == digits_value(Seq::<char>::empty()) * 10 + digit_value(decimal(n).last()));
    } else {
        lemma_decimal_digits(n / 10);
        let c = digit_char(n % 10);
        assert(digit_value(c) == n % 10);
        assert(decimal(n).drop_last() =~= decimal(n / 10));
        assert(decimal(n)[0] == decimal(n / 10)[0]);
        assert forall|i: int| 0 <= i < decimal(n).len() implies is_digit(#[trigger] decimal(n)[i]) by {
            if i < decimal(n / 10).len() {
                assert(decimal(n)[i] == decimal(n / 10)[i]);
            }
        }
        assert(decimal(n).last() == c);
        assert(digits_value(decimal(n)) == digits_value(decimal(n / 10)) * 10 + digit_value(c));
        assert(n == (n / 10) * 10 + n % 10);
    }
}

/// A number printed in decimal parses back to itself.
pub proof fn law_decimal_parses_back(n: u64)
    ensures
        parse_u64_spec(decimal(n as nat)) == Some(n),
{
    lemma_decimal_digits(n as nat);
}

fn digit_of(d: u64) -> (c: char)
    requires
        d < 10,
    ensures
        c == digit_char(d as nat),
{
    if d == 0 { '0' }
    else if d == 1 { '1' }
    else if d == 2 { '2' }
    else if d == 3 { '3' }
    else if d == 4 { '4' }
    else if d == 5 { '5' }
    else if d == 6 { '6' }
    else if d == 7 { '7' }
    else if d == 8 { '8' }
    else { '9' }
}

/// Appends the decimal representation of `n` to `s`.
pub fn push_decimal(s: &mut String, n: u64)
    ensures
        final(s)@ == old(s)@ + decimal(n as nat),
    decreases n,
{
    if n >= 10 {
        push_decimal(s, n / 10);
    }
    push_char(s, digit_of(n % 10));
}

} // verus!
