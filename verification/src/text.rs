//! Character-level text operations shared by the crawler, the filter and the page renderer.
//!
//! Everything here works on `Seq<char>` in specifications; the executable code works on
//! `Vec<char>` buffers and converts to and from `String` at the edges.
use vstd::prelude::*;

verus! {

/// The Unicode `White_Space` property, which `char::is_whitespace`, `str::trim` and
/// `str::split_whitespace` use.
pub open spec fn is_white_space(c: char) -> bool {
    ||| ('\u{9}' <= c && c <= '\u{d}')
    ||| c == ' '
    ||| c == '\u{85}'
    ||| c == '\u{a0}'
    ||| c == '\u{1680}'
    ||| ('\u{2000}' <= c && c <= '\u{200a}')
    ||| c == '\u{2028}'
    ||| c == '\u{2029}'
    ||| c == '\u{202f}'
    ||| c == '\u{205f}'
    ||| c == '\u{3000}'
}

/// Executable test of the Unicode `White_Space` property.
pub fn is_whitespace_char(c: char) -> (res: bool)
    ensures
        res == is_white_space(c),
{
    ('\u{9}' <= c && c <= '\u{d}') || c == ' ' || c == '\u{85}' || c == '\u{a0}' || c
        == '\u{1680}' || ('\u{2000}' <= c && c <= '\u{200a}') || c == '\u{2028}' || c
        == '\u{2029}' || c == '\u{202f}' || c == '\u{205f}' || c == '\u{3000}'
}

/// Appends one character to a string (`String::push`).
#[verifier::external_body]
pub(crate) fn string_push(s: &mut String, c: char)
    ensures
        final(s)@ == old(s)@.push(c),
{
    s.push(c)
}

/// The characters of a string, in order.
pub fn chars_of(s: &str) -> (res: Vec<char>)
    ensures
        res@ == s@,
{
    let mut out: Vec<char> = Vec::new();
    for c in it: s.chars()
        invariant
            out@ == it.seq().take(it.index() as int),
            it.seq() == s@,
    {
        out.push(c);
    }
    out
}

/// Builds a string from a character buffer.
pub fn string_of(v: &Vec<char>) -> (res: String)
    ensures
        res@ == v@,
{
    let mut out = String::new();
    let n = v.len();
    for i in 0..n
        invariant
            n == v.len(),
            out@ == v@.take(i as int),
    {
        string_push(&mut out, v[i]);
        assert(v@.take(i + 1) =~= v@.take(i as int).push(v@[i as int]));
    }
    assert(v@.take(n as int) =~= v@);
    out
}

/// Appends all characters of `src` to `dst`.
pub fn push_all(dst: &mut Vec<char>, src: &Vec<char>)
    ensures
        final(dst)@ == old(dst)@ + src@,
{
    let n = src.len();
    for i in 0..n
        invariant
            n == src.len(),
            dst@ == old(dst)@ + src@.take(i as int),
    {
        dst.push(src[i]);
        assert(src@.take(i + 1) =~= src@.take(i as int).push(src@[i as int]));
    }
    assert(src@.take(n as int) =~= src@);
}

/// Appends the characters of a string slice to a buffer.
pub fn push_str(dst: &mut Vec<char>, s: &str)
    ensures
        final(dst)@ == old(dst)@ + s@,
{
    let v = chars_of(s);
    push_all(dst, &v);
}

/// `s` with its leading characters that satisfy `p` removed.
pub open spec fn drop_leading(s: Seq<char>, p: spec_fn(char) -> bool) -> Seq<char>
    decreases s.len(),
{
    if s.len() > 0 && p(s[0]) {
        drop_leading(s.drop_first(), p)
    } else {
        s
    }
}

/// `s` with its trailing characters that satisfy `p` removed.
pub open spec fn drop_trailing(s: Seq<char>, p: spec_fn(char) -> bool) -> Seq<char>
    decreases s.len(),
{
    if s.len() > 0 && p(s.last()) {
        drop_trailing(s.drop_last(), p)
    } else {
        s
    }
}

/// The Unicode `White_Space` property as a predicate.
pub open spec fn white_space_pred() -> spec_fn(char) -> bool {
    |c: char| is_white_space(c)
}

/// `str::trim`: leading and trailing white space removed.
pub open spec fn trim_spec(s: Seq<char>) -> Seq<char> {
    drop_trailing(drop_leading(s, white_space_pred()), white_space_pred())
}

/// `str::trim_matches(ch)`: leading and trailing copies of `ch` removed.
pub open spec fn trim_char_spec(s: Seq<char>, ch: char) -> Seq<char> {
    drop_trailing(drop_leading(s, trim_pred(false, ch)), trim_pred(false, ch))
}

/// `drop_leading` removes exactly the prefix of matching characters.
pub proof fn lemma_drop_leading_skip(s: Seq<char>, p: spec_fn(char) -> bool, i: int)
    requires
        0 <= i <= s.len(),
        forall|k: int| 0 <= k < i ==> p(#[trigger] s[k]),
    ensures
        drop_leading(s, p) == drop_leading(s.skip(i), p),
    decreases i,
{
    if i > 0 {
        assert(s.drop_first().skip(i - 1) =~= s.skip(i));
        lemma_drop_leading_skip(s.drop_first(), p, i - 1);
    } else {
        assert(s.skip(0) =~= s);
    }
}

/// `drop_trailing` removes exactly the suffix of matching characters.
pub proof fn lemma_drop_trailing_take(s: Seq<char>, p: spec_fn(char) -> bool, j: int)
    requires
        0 <= j <= s.len(),
        forall|k: int| j <= k < s.len() ==> p(#[trigger] s[k]),
    ensures
        drop_trailing(s, p) == drop_trailing(s.take(j), p),
    decreases s.len() - j,
{
    if j < s.len() {
        assert(s.drop_last().take(j) =~= s.take(j));
        lemma_drop_trailing_take(s.drop_last(), p, j);
    } else {
        assert(s.take(j) =~= s);
    }
}

/// `drop_leading` yields a suffix of its input that does not start with a matching character.
pub proof fn lemma_drop_leading_shape(s: Seq<char>, p: spec_fn(char) -> bool)
    ensures
        drop_leading(s, p).len() <= s.len(),
        drop_leading(s, p) == s.skip(s.len() - drop_leading(s, p).len()),
        drop_leading(s, p).len() > 0 ==> !p(drop_leading(s, p)[0]),
    decreases s.len(),
{
    if s.len() > 0 && p(s[0]) {
        lemma_drop_leading_shape(s.drop_first(), p);
        let r = drop_leading(s.drop_first(), p);
        assert(s.drop_first().skip(s.drop_first().len() - r.len()) =~= s.skip(s.len() - r.len()));
    } else {
        assert(s.skip(0) =~= s);
    }
}

/// `drop_trailing` yields a prefix of its input that does not end with a matching character.
pub proof fn lemma_drop_trailing_shape(s: Seq<char>, p: spec_fn(char) -> bool)
    ensures
        drop_trailing(s, p).len() <= s.len(),
        drop_trailing(s, p) == s.take(drop_trailing(s, p).len() as int),
        drop_trailing(s, p).len() > 0 ==> !p(drop_trailing(s, p).last()),
    decreases s.len(),
{
    if s.len() > 0 && p(s.last()) {
        lemma_drop_trailing_shape(s.drop_last(), p);
        let r = drop_trailing(s.drop_last(), p);
        assert(s.drop_last().take(r.len() as int) =~= s.take(r.len() as int));
    } else {
        assert(s.take(s.len() as int) =~= s);
    }
}

/// Trimming with `p` yields a contiguous part of the input that neither starts nor ends with
/// a matching character.
pub proof fn lemma_trim_shape(s: Seq<char>, p: spec_fn(char) -> bool)
    ensures
        ({
            let t = drop_trailing(drop_leading(s, p), p);
            &&& exists|a: int|
                0 <= a && a + t.len() <= s.len() && t == #[trigger] s.subrange(a, a + t.len())
            &&& t.len() > 0 ==> !p(t[0]) && !p(t.last())
        }),
{
    let l = drop_leading(s, p);
    lemma_drop_leading_shape(s, p);
    lemma_drop_trailing_shape(l, p);
    let t = drop_trailing(l, p);
    let a = s.len() - l.len();
    assert(t =~= s.subrange(a, a + t.len()));
    if t.len() > 0 {
        assert(t[0] == l[0]);
    }
}

/// The predicate that `trim_by` strips: white space, or one given character.
pub open spec fn trim_pred(ws: bool, ch: char) -> spec_fn(char) -> bool {
    if ws {
        white_space_pred()
    } else {
        |c: char| c == ch
    }
}

fn trim_hit(c: char, ws: bool, ch: char) -> (res: bool)
    ensures
        res == trim_pred(ws, ch)(c),
{
    if ws {
        is_whitespace_char(c)
    } else {
        c == ch
    }
}

/// Removes the leading and trailing characters satisfying `trim_pred(ws, ch)`.
fn trim_by(v: &Vec<char>, ws: bool, ch: char) -> (res: Vec<char>)
    ensures
        res@ == drop_trailing(drop_leading(v@, trim_pred(ws, ch)), trim_pred(ws, ch)),
{
    let ghost p = trim_pred(ws, ch);
    let n = v.len();
    let mut i: usize = 0;
    while i < n && trim_hit(v[i], ws, ch)
        invariant
            n == v.len(),
            i <= n,
            p == trim_pred(ws, ch),
            forall|k: int| 0 <= k < i ==> p(#[trigger] v@[k]),
        decreases n - i,
    {
        i = i + 1;
    }
    proof {
        lemma_drop_leading_skip(v@, p, i as int);
    }
    let ghost rest = v@.skip(i as int);
    assert(drop_leading(rest, p) == rest);
    let mut j: usize = n;
    while j > i && trim_hit(v[j - 1], ws, ch)
        invariant
            n == v.len(),
            i <= j <= n,
            p == trim_pred(ws, ch),
            forall|k: int| j <= k < n ==> p(#[trigger] v@[k]),
        decreases j,
    {
        j = j - 1;
    }
    let mut out: Vec<char> = Vec::new();
    let mut k: usize = i;
    while k < j
        invariant
            n == v.len(),
            i <= k <= j <= n,
            out@ == v@.subrange(i as int, k as int),
        decreases j - k,
    {
        out.push(v[k]);
        assert(v@.subrange(i as int, k + 1) =~= v@.subrange(i as int, k as int).push(
            v@[k as int],
        ));
        k = k + 1;
    }
    proof {
        assert forall|k: int| j - i <= k < rest.len() implies p(#[trigger] rest[k]) by {
            assert(rest[k] == v@[k + i]);
        }
        lemma_drop_trailing_take(rest, p, j - i);
        assert(rest.take(j - i) =~= v@.subrange(i as int, j as int));
        let t = v@.subrange(i as int, j as int);
        if j > i {
            assert(t.last() == v@[j - 1]);
        }
        assert(drop_trailing(t, p) == t);
    }
    out
}

/// `str::trim` on a character buffer.
pub fn trim_chars(v: &Vec<char>) -> (res: Vec<char>)
    ensures
        res@ == trim_spec(v@),
{
    trim_by(v, true, ' ')
}

/// `str::trim_matches(ch)` on a character buffer.
pub fn trim_char(v: &Vec<char>, ch: char) -> (res: Vec<char>)
    ensures
        res@ == trim_char_spec(v@, ch),
{
    trim_by(v, false, ch)
}

/// `str::trim`, returning an owned string.
pub fn trim(s: &str) -> (res: String)
    ensures
        res@ == trim_spec(s@),
{
    let v = chars_of(s);
    let t = trim_chars(&v);
    string_of(&t)
}

/// `s` with every maximal run of white space replaced by one `' '`.
pub open spec fn squash_spec(s: Seq<char>) -> Seq<char>
    decreases s.len(),
{
    if s.len() == 0 {
        s
    } else {
        let p = squash_spec(s.drop_last());
        if is_white_space(s.last()) {
            if p.len() > 0 && p.last() == ' ' {
                p
            } else {
                p.push(' ')
            }
        } else {
            p.push(s.last())
        }
    }
}

/// `split_whitespace().join(" ")`: the words of `s`, separated by one space each.
pub open spec fn normalize_spaces_spec(s: Seq<char>) -> Seq<char> {
    trim_spec(squash_spec(s))
}

/// Replaces every run of white space by one space.
pub fn squash_chars(v: &Vec<char>) -> (res: Vec<char>)
    ensures
        res@ == squash_spec(v@),
{
    let mut out: Vec<char> = Vec::new();
    let n = v.len();
    for i in 0..n
        invariant
            n == v.len(),
            out@ == squash_spec(v@.take(i as int)),
    {
        let ghost pre = v@.take(i as int);
        assert(v@.take(i + 1).drop_last() =~= pre);
        let c = v[i];
        if is_whitespace_char(c) {
            let l = out.len();
            if !(l > 0 && out[l - 1] == ' ') {
                out.push(' ');
            }
        } else {
            out.push(c);
        }
    }
    assert(v@.take(n as int) =~= v@);
    out
}

/// Collapses white space: the words of the input, separated by single spaces.
pub fn normalize_spaces_chars(v: &Vec<char>) -> (res: Vec<char>)
    ensures
        res@ == normalize_spaces_spec(v@),
{
    let sq = squash_chars(v);
    trim_chars(&sq)
}

/// `input.split_whitespace().collect::<Vec<_>>().join(" ")`.
pub fn normalize_spaces(input: &str) -> (res: String)
    ensures
        res@ == normalize_spaces_spec(input@),
{
    let v = chars_of(input);
    let r = normalize_spaces_chars(&v);
    string_of(&r)
}

/// `pat` occurs in `s` starting at index `i`.
pub open spec fn occurs_at(s: Seq<char>, pat: Seq<char>, i: int) -> bool {
    0 <= i && i + pat.len() <= s.len() && s.subrange(i, i + pat.len()) == pat
}

/// `str::replace(pat, rep)` for a non-empty pattern: occurrences are replaced from left to
/// right, and a replaced occurrence is not searched again.
pub open spec fn replace_spec(s: Seq<char>, pat: Seq<char>, rep: Seq<char>) -> Seq<char>
    decreases s.len(),
{
    if pat.len() == 0 || s.len() < pat.len() {
        s
    } else if s.take(pat.len() as int) == pat {
        rep + replace_spec(s.skip(pat.len() as int), pat, rep)
    } else {
        seq![s[0]] + replace_spec(s.drop_first(), pat, rep)
    }
}

/// Whether `pat` occurs in `v` at index `i`.
pub fn occurs_at_exec(v: &Vec<char>, pat: &Vec<char>, i: usize) -> (res: bool)
    ensures
        res == occurs_at(v@, pat@, i as int),
{
    let m = pat.len();
    let n = v.len();
    if i > n || m > n - i {
        return false;
    }
    let mut k: usize = 0;
    while k < m
        invariant
            m == pat.len(),
            n == v.len(),
            i + m <= n,
            k <= m,
            forall|j: int| 0 <= j < k ==> v@[i + j] == pat@[j],
        decreases m - k,
    {
        if v[i + k] != pat[k] {
            assert(v@.subrange(i as int, i + m)[k as int] != pat@[k as int]);
            return false;
        }
        k = k + 1;
    }
    assert(v@.subrange(i as int, i + m) =~= pat@);
    true
}

/// `str::replace` on character buffers; the pattern must not be empty.
pub fn replace_chars(v: &Vec<char>, pat: &Vec<char>, rep: &Vec<char>) -> (res: Vec<char>)
    requires
        pat@.len() > 0,
    ensures
        res@ == replace_spec(v@, pat@, rep@),
{
    let n = v.len();
    let m = pat.len();
    let mut out: Vec<char> = Vec::new();
    let mut i: usize = 0;
    assert(v@.skip(0) =~= v@);
    while i < n
        invariant
            n == v.len(),
            m == pat.len(),
            m > 0,
            i <= n,
            replace_spec(v@, pat@, rep@) == out@ + replace_spec(v@.skip(i as int), pat@, rep@),
        decreases n - i,
    {
        let ghost rest = v@.skip(i as int);
        if occurs_at_exec(v, pat, i) {
            assert(rest.take(m as int) =~= v@.subrange(i as int, i + m));
            assert(rest.skip(m as int) =~= v@.skip(i + m));
            push_all(&mut out, rep);
            i = i + m;
        } else {
            assert(rest.drop_first() =~= v@.skip(i + 1));
            if m <= n - i {
                assert(rest.take(m as int) =~= v@.subrange(i as int, i + m));
            } else {
                assert(rest =~= seq![v@[i as int]] + v@.skip(i + 1));
            }
            out.push(v[i]);
            i = i + 1;
        }
    }
    assert(v@.skip(n as int) =~= Seq::<char>::empty());
    out
}

/// `s.replace(pat, rep)` for a non-empty pattern.
pub fn replace(s: &str, pat: &str, rep: &str) -> (res: String)
    requires
        pat@.len() > 0,
    ensures
        res@ == replace_spec(s@, pat@, rep@),
{
    let v = chars_of(s);
    let p = chars_of(pat);
    let r = chars_of(rep);
    let out = replace_chars(&v, &p, &r);
    string_of(&out)
}

/// The index of the first occurrence of `pat` in `v` (`str::find`, counted in characters).
pub fn find_chars(v: &Vec<char>, pat: &Vec<char>) -> (res: Option<usize>)
    ensures
        match res {
            Some(i) => occurs_at(v@, pat@, i as int) && forall|j: int|
                0 <= j < i ==> !occurs_at(v@, pat@, j),
            None => forall|j: int| !occurs_at(v@, pat@, j),
        },
{
    let n = v.len();
    let mut i: usize = 0;
    while i <= n
        invariant
            n == v.len(),
            forall|j: int| 0 <= j < i ==> !occurs_at(v@, pat@, j),
        decreases n + 1 - i,
    {
        if occurs_at_exec(v, pat, i) {
            return Some(i);
        }
        if i == n {
            assert forall|j: int| !occurs_at(v@, pat@, j) by {
                if j >= 0 && j < i {
                }
            }
            return None;
        }
        i = i + 1;
    }
    None
}

/// `s` starts with `prefix`.
pub open spec fn has_prefix(s: Seq<char>, prefix: Seq<char>) -> bool {
    prefix.len() <= s.len() && s.take(prefix.len() as int) == prefix
}

/// `str::strip_prefix` on character buffers.
pub fn strip_prefix_chars(v: &Vec<char>, prefix: &Vec<char>) -> (res: Option<Vec<char>>)
    ensures
        match res {
            Some(r) => has_prefix(v@, prefix@) && r@ == v@.skip(prefix@.len() as int),
            None => !has_prefix(v@, prefix@),
        },
{
    if occurs_at_exec(v, prefix, 0) {
        assert(v@.subrange(0, prefix@.len() as int) =~= v@.take(prefix@.len() as int));
        let n = v.len();
        let m = prefix.len();
        let mut out: Vec<char> = Vec::new();
        let mut k: usize = m;
        while k < n
            invariant
                n == v.len(),
                m <= k <= n,
                out@ == v@.subrange(m as int, k as int),
            decreases n - k,
        {
            out.push(v[k]);
            assert(v@.subrange(m as int, k + 1) =~= v@.subrange(m as int, k as int).push(
                v@[k as int],
            ));
            k = k + 1;
        }
        assert(v@.subrange(m as int, n as int) =~= v@.skip(m as int));
        Some(out)
    } else {
        assert(has_prefix(v@, prefix@) ==> v@.subrange(0, prefix@.len() as int) =~= v@.take(
            prefix@.len() as int,
        ));
        None
    }
}

/// The character of a decimal digit.
pub open spec fn digit_char(d: nat) -> char {
    (48 + d) as char
}

/// Decimal notation of a natural number, without leading zeros (`u64::to_string`).
pub open spec fn decimal_spec(n: nat) -> Seq<char>
    decreases n,
{
    if n < 10 {
        seq![digit_char(n)]
    } else {
        decimal_spec(n / 10).push(digit_char(n % 10))
    }
}

/// The character of one decimal digit.
pub fn digit_to_char(d: u64) -> (c: char)
    requires
        d < 10,
    ensures
        c == digit_char(d as nat),
{
    let b: u8 = 48u8 + (d as u8);
    b as char
}

/// Decimal notation of `n` as characters.
pub fn decimal_chars(n: u64) -> (res: Vec<char>)
    ensures
        res@ == decimal_spec(n as nat),
    decreases n,
{
    if n < 10 {
        let mut v: Vec<char> = Vec::new();
        v.push(digit_to_char(n));
        assert(v@ =~= seq![digit_char(n as nat)]);
        v
    } else {
        let mut v = decimal_chars(n / 10);
        v.push(digit_to_char(n % 10));
        v
    }
}

/// Decimal notation of `n` (`n.to_string()`).
pub fn decimal_string(n: u64) -> (res: String)
    ensures
        res@ == decimal_spec(n as nat),
{
    let v = decimal_chars(n);
    string_of(&v)
}

/// `char::to_ascii_uppercase`.
pub open spec fn ascii_upper(c: char) -> char {
    if 'a' <= c && c <= 'z' {
        ((c as u32) - 32) as char
    } else {
        c
    }
}

/// `str::to_ascii_uppercase`.
pub open spec fn ascii_upper_spec(s: Seq<char>) -> Seq<char> {
    s.map_values(|c: char| ascii_upper(c))
}

/// `str::to_ascii_uppercase` on a string slice.
pub fn to_ascii_uppercase(s: &str) -> (res: String)
    ensures
        res@ == ascii_upper_spec(s@),
{
    let v = chars_of(s);
    let n = v.len();
    let mut out: Vec<char> = Vec::new();
    for i in 0..n
        invariant
            n == v.len(),
            out@ == ascii_upper_spec(v@.take(i as int)),
    {
        let c = v[i];
        let u = if 'a' <= c && c <= 'z' {
            let b: u8 = (c as u8) - 32;
            b as char
        } else {
            c
        };
        assert(u == ascii_upper(c));
        out.push(u);
        assert(ascii_upper_spec(v@.take(i + 1)) =~= ascii_upper_spec(v@.take(i as int)).push(
            ascii_upper(c),
        ));
    }
    assert(v@.take(n as int) =~= v@);
    string_of(&out)
}

/// The characters of the given strings joined with `sep` between neighbours
/// (`join(sep)` on a list of strings).
pub open spec fn join_spec(parts: Seq<String>, sep: Seq<char>) -> Seq<char>
    decreases parts.len(),
{
    if parts.len() == 0 {
        Seq::empty()
    } else if parts.len() == 1 {
        parts[0]@
    } else {
        join_spec(parts.drop_last(), sep) + sep + parts.last()@
    }
}

/// Joins strings with a separator, into a character buffer.
pub fn join_chars(parts: &Vec<String>, sep: &str) -> (res: Vec<char>)
    ensures
        res@ == join_spec(parts@, sep@),
{
    let mut out: Vec<char> = Vec::new();
    let n = parts.len();
    for i in 0..n
        invariant
            n == parts.len(),
            out@ == join_spec(parts@.take(i as int), sep@),
    {
        assert(parts@.take(i + 1).drop_last() =~= parts@.take(i as int));
        if i > 0 {
            push_str(&mut out, sep);
        }
        push_str(&mut out, parts[i].as_str());
        assert(i == 0 ==> out@ =~= parts@.take(i + 1)[0]@);
    }
    assert(parts@.take(n as int) =~= parts@);
    out
}

/// Joins strings with a separator.
pub fn join(parts: &Vec<String>, sep: &str) -> (res: String)
    ensures
        res@ == join_spec(parts@, sep@),
{
    let v = join_chars(parts, sep);
    string_of(&v)
}

/// The characters of the given strings, one after the other.
pub open spec fn concat_spec(parts: Seq<String>) -> Seq<char>
    decreases parts.len(),
{
    if parts.len() == 0 {
        Seq::empty()
    } else {
        concat_spec(parts.drop_last()) + parts.last()@
    }
}

/// Concatenates strings into a character buffer.
pub fn concat_chars(parts: &Vec<String>) -> (res: Vec<char>)
    ensures
        res@ == concat_spec(parts@),
{
    let mut out: Vec<char> = Vec::new();
    let n = parts.len();
    for i in 0..n
        invariant
            n == parts.len(),
            out@ == concat_spec(parts@.take(i as int)),
    {
        assert(parts@.take(i + 1).drop_last() =~= parts@.take(i as int));
        push_str(&mut out, parts[i].as_str());
    }
    assert(parts@.take(n as int) =~= parts@);
    out
}

/// `tok` occurs in `s` as a whole white-space separated word.
pub open spec fn is_word_at(s: Seq<char>, tok: Seq<char>, i: int) -> bool {
    &&& occurs_at(s, tok, i)
    &&& (i == 0 || is_white_space(s[i - 1]))
    &&& (i + tok.len() == s.len() || is_white_space(s[i + tok.len()]))
}

/// One of the white-space separated words of `s` is `tok`
/// (`s.split_whitespace().any(|w| w == tok)` for a word `tok`).
pub open spec fn has_word(s: Seq<char>, tok: Seq<char>) -> bool {
    exists|i: int| is_word_at(s, tok, i)
}

/// Whether one of the white-space separated words of `s` is `tok`.
pub fn has_word_exec(s: &Vec<char>, tok: &Vec<char>) -> (res: bool)
    ensures
        res == has_word(s@, tok@),
{
    let n = s.len();
    let m = tok.len();
    let mut i: usize = 0;
    while i <= n
        invariant
            n == s.len(),
            m == tok.len(),
            forall|j: int| 0 <= j < i ==> !is_word_at(s@, tok@, j),
        decreases n + 1 - i,
    {
        if occurs_at_exec(s, tok, i) {
            let before = i == 0 || is_whitespace_char(s[i - 1]);
            let after = i + m == n || is_whitespace_char(s[i + m]);
            if before && after {
                assert(is_word_at(s@, tok@, i as int));
                return true;
            }
        }
        if i == n {
            assert forall|j: int| !is_word_at(s@, tok@, j) by {
                if 0 <= j && j < i {
                }
            }
            return false;
        }
        i = i + 1;
    }
    false
}

/// Whether two strings have the same characters (`==` on `str`).
pub fn same_text(a: &str, b: &str) -> (res: bool)
    ensures
        res == (a@ == b@),
{
    let x = chars_of(a);
    let y = chars_of(b);
    if x.len() != y.len() {
        return false;
    }
    let n = x.len();
    for i in 0..n
        invariant
            n == x.len(),
            n == y.len(),
            x@ == a@,
            y@ == b@,
            forall|j: int| 0 <= j < i ==> x@[j] == y@[j],
    {
        if x[i] != y[i] {
            assert(x@[i as int] != y@[i as int]);
            return false;
        }
    }
    assert(x@ =~= y@);
    true
}

/// `a` comes before `b` in the lexicographic order of their characters (the order of `str`,
/// since UTF-8 keeps the order of code points).
pub open spec fn text_less(a: Seq<char>, b: Seq<char>) -> bool
    decreases a.len(),
{
    if a.len() == 0 {
        b.len() > 0
    } else if b.len() == 0 {
        false
    } else if a[0] != b[0] {
        a[0] < b[0]
    } else {
        text_less(a.drop_first(), b.drop_first())
    }
}

/// The lexicographic order is irreflexive.
pub proof fn lemma_text_less_irreflexive(a: Seq<char>)
    ensures
        !text_less(a, a),
    decreases a.len(),
{
    if a.len() > 0 {
        lemma_text_less_irreflexive(a.drop_first());
    }
}

/// The lexicographic order is transitive.
pub proof fn lemma_text_less_transitive(a: Seq<char>, b: Seq<char>, c: Seq<char>)
    requires
        text_less(a, b),
        text_less(b, c),
    ensures
        text_less(a, c),
    decreases a.len(),
{
    if a.len() > 0 && b.len() > 0 && c.len() > 0 && a[0] == b[0] && b[0] == c[0] {
        lemma_text_less_transitive(a.drop_first(), b.drop_first(), c.drop_first());
    }
}

/// Two different texts are ordered one way or the other.
pub proof fn lemma_text_less_total(a: Seq<char>, b: Seq<char>)
    ensures
        a != b ==> text_less(a, b) || text_less(b, a),
    decreases a.len(),
{
    if a.len() > 0 && b.len() > 0 && a[0] == b[0] {
        lemma_text_less_total(a.drop_first(), b.drop_first());
        if a.drop_first() == b.drop_first() {
            assert(a =~= seq![a[0]] + a.drop_first());
            assert(b =~= seq![b[0]] + b.drop_first());
        }
    } else if a.len() == 0 && b.len() == 0 {
        assert(a =~= b);
    }
}

/// Whether `a` comes before `b` in the lexicographic order of their characters.
pub fn text_less_exec(a: &str, b: &str) -> (res: bool)
    ensures
        res == text_less(a@, b@),
{
    let x = chars_of(a);
    let y = chars_of(b);
    let mut i: usize = 0;
    assert(x@.skip(0) =~= x@);
    assert(y@.skip(0) =~= y@);
    loop
        invariant
            i <= x.len(),
            i <= y.len(),
            text_less(a@, b@) == text_less(x@.skip(i as int), y@.skip(i as int)),
            x@ == a@,
            y@ == b@,
        decreases x.len() - i,
    {
        if i == x.len() {
            return i < y.len();
        }
        if i == y.len() {
            return false;
        }
        if x[i] != y[i] {
            return x[i] < y[i];
        }
        assert(x@.skip(i as int).drop_first() =~= x@.skip(i + 1));
        assert(y@.skip(i as int).drop_first() =~= y@.skip(i + 1));
        i = i + 1;
    }
}

/// The white space of `s` is single spaces between other characters.
pub open spec fn spaces_are_single(s: Seq<char>) -> bool {
    &&& forall|i: int| 0 <= i < s.len() && is_white_space(#[trigger] s[i]) ==> s[i] == ' '
    &&& forall|i: int| 0 <= i < s.len() - 1 ==> !(#[trigger] s[i] == ' ' && s[i + 1] == ' ')
}

/// `s` is in normal form: white space only as single spaces between words.
pub open spec fn is_normalized(s: Seq<char>) -> bool {
    &&& spaces_are_single(s)
    &&& s.len() > 0 ==> !is_white_space(s[0]) && !is_white_space(s.last())
}

proof fn lemma_squash_single(s: Seq<char>)
    ensures
        spaces_are_single(squash_spec(s)),
    decreases s.len(),
{
    if s.len() > 0 {
        lemma_squash_single(s.drop_last());
        let p = squash_spec(s.drop_last());
        let r = squash_spec(s);
        assert forall|i: int| 0 <= i < r.len() && is_white_space(#[trigger] r[i]) implies r[i]
            == ' ' by {
            if i < p.len() {
                assert(r[i] == p[i]);
            }
        }
        assert forall|i: int| 0 <= i < r.len() - 1 implies !(#[trigger] r[i] == ' ' && r[i + 1]
            == ' ') by {
            if i + 1 < p.len() {
                assert(r[i] == p[i] && r[i + 1] == p[i + 1]);
            } else if r.len() > p.len() {
                assert(r[i] == p.last());
            }
        }
    }
}

/// The result of normalizing white space is in normal form.
pub proof fn lemma_normalized_shape(s: Seq<char>)
    ensures
        is_normalized(normalize_spaces_spec(s)),
{
    let q = squash_spec(s);
    lemma_squash_single(s);
    let p = white_space_pred();
    lemma_trim_shape(q, p);
    let t = normalize_spaces_spec(s);
    let a = choose|a: int| 0 <= a && a + t.len() <= q.len() && t == #[trigger] q.subrange(
        a,
        a + t.len(),
    );
    assert forall|i: int| 0 <= i < t.len() && is_white_space(#[trigger] t[i]) implies t[i]
        == ' ' by {
        assert(t[i] == q[a + i]);
    }
    assert forall|i: int| 0 <= i < t.len() - 1 implies !(#[trigger] t[i] == ' ' && t[i + 1]
        == ' ') by {
        assert(t[i] == q[a + i] && t[i + 1] == q[a + i + 1]);
    }
}

proof fn lemma_squash_fixed(t: Seq<char>)
    requires
        spaces_are_single(t),
        t.len() > 0 ==> !is_white_space(t[0]),
    ensures
        squash_spec(t) == t,
    decreases t.len(),
{
    if t.len() > 0 {
        let u = t.drop_last();
        assert forall|i: int| 0 <= i < u.len() && is_white_space(#[trigger] u[i]) implies u[i]
            == ' ' by {
            assert(u[i] == t[i]);
        }
        assert forall|i: int| 0 <= i < u.len() - 1 implies !(#[trigger] u[i] == ' ' && u[i + 1]
            == ' ') by {
            assert(u[i] == t[i] && u[i + 1] == t[i + 1]);
        }
        lemma_squash_fixed(u);
        if is_white_space(t.last()) {
            assert(t[t.len() - 1] == ' ');
            if u.len() > 0 {
                assert(!(t[t.len() - 2] == ' ' && t[t.len() - 1] == ' '));
            }
        }
        assert(u.push(t.last()) =~= t);
    }
}

/// Normalizing white space twice gives what normalizing once gives.
pub proof fn lemma_normalize_idempotent(s: Seq<char>)
    ensures
        normalize_spaces_spec(normalize_spaces_spec(s)) == normalize_spaces_spec(s),
{
    let t = normalize_spaces_spec(s);
    lemma_normalized_shape(s);
    lemma_squash_fixed(t);
    let p = white_space_pred();
    assert(drop_leading(t, p) == t);
    assert(drop_trailing(t, p) == t);
}

} // verus!
