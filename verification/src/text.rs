//! Text as sequences of `char`: whitespace, trimming, decimal numbers, lines.
use vstd::prelude::*;

verus! {

/// The Unicode `White_Space` property, which `char::is_whitespace` (and with it
/// `str::trim`, `str::split_whitespace`) tests.
pub open spec fn is_white_space(c: char) -> bool {
    let u = c as u32;
    ||| 0x09 <= u <= 0x0d
    ||| u == 0x20
    ||| u == 0x85
    ||| u == 0xa0
    ||| u == 0x1680
    ||| 0x2000 <= u <= 0x200a
    ||| u == 0x2028
    ||| u == 0x2029
    ||| u == 0x202f
    ||| u == 0x205f
    ||| u == 0x3000
}

/// Whether `c` is Unicode white space.
pub fn white_space(c: char) -> (b: bool)
    ensures
        b == is_white_space(c),
{
    let u = c as u32;
    (0x09 <= u && u <= 0x0d) || u == 0x20 || u == 0x85 || u == 0xa0 || u == 0x1680 || (0x2000
        <= u && u <= 0x200a) || u == 0x2028 || u == 0x2029 || u == 0x202f || u == 0x205f || u
        == 0x3000
}

/// The character of the decimal digit `d`.
pub open spec fn digit(d: nat) -> char {
    (48 + d) as char
}

/// The decimal representation of `n`, without leading zeros.
pub open spec fn decimal(n: nat) -> Seq<char>
    decreases n,
{
    if n < 10 {
        seq![digit(n)]
    } else {
        decimal(n / 10).push(digit(n % 10))
    }
}

/// Appends the decimal representation of `n` to `out`.
pub fn push_decimal(out: &mut Vec<char>, n: u64)
    ensures
        final(out)@ == old(out)@ + decimal(n as nat),
    decreases n,
{
    if n >= 10 {
        push_decimal(out, n / 10);
    }
    let d: u8 = (n % 10) as u8;
    let c: char = (48u8 + d) as char;
    out.push(c);
    assert(out@ =~= old(out)@ + decimal(n as nat));
}

} // verus!

verus! {

/// The characters of `s`, in order.
pub fn chars_of(s: &str) -> (v: Vec<char>)
    ensures
        v@ == s@,
{
    let mut v: Vec<char> = Vec::new();
    for c in it: s.chars()
        invariant
            v@ == it.seq().take(it.index() as int),
            it.seq() == s@,
    {
        v.push(c);
    }
    v
}

/// `String::push`: appends `c` to `s`.
#[verifier::external_body]
pub(crate) fn push_char(s: &mut String, c: char)
    ensures
        final(s)@ == old(s)@.push(c),
{
    s.push(c);
}

/// The string whose characters are `chars`.
pub fn string_from_chars(chars: &Vec<char>) -> (s: String)
    ensures
        s@ == chars@,
{
    let mut s = String::new();
    let mut i: usize = 0;
    while i < chars.len()
        invariant
            i <= chars@.len(),
            s@ == chars@.take(i as int),
        decreases chars@.len() - i,
    {
        push_char(&mut s, chars[i]);
        i = i + 1;
        assert(s@ =~= chars@.take(i as int));
    }
    assert(chars@.take(chars@.len() as int) =~= chars@);
    s
}

} // verus!

verus! {

/// The number of white-space characters at the start of `s`.
pub open spec fn leading_space(s: Seq<char>) -> nat
    decreases s.len(),
{
    if s.len() > 0 && is_white_space(s[0]) {
        1 + leading_space(s.drop_first())
    } else {
        0
    }
}

/// The number of white-space characters at the end of `s`.
pub open spec fn trailing_space(s: Seq<char>) -> nat
    decreases s.len(),
{
    if s.len() > 0 && is_white_space(s.last()) {
        1 + trailing_space(s.drop_last())
    } else {
        0
    }
}

/// `s` without its trailing white space (`str::trim_end`).
pub open spec fn trim_end(s: Seq<char>) -> Seq<char> {
    s.take(s.len() - trailing_space(s))
}

/// `s` without its leading and trailing white space (`str::trim`).
pub open spec fn trim(s: Seq<char>) -> Seq<char> {
    trim_end(s.skip(leading_space(s) as int))
}

/// `leading_space(s) == k` exactly when the first `k` characters are white space and
/// the one after them, if any, is not.
pub proof fn lemma_leading_space(s: Seq<char>, k: int)
    requires
        0 <= k <= s.len(),
        forall|j: int| 0 <= j < k ==> is_white_space(#[trigger] s[j]),
        k == s.len() || !is_white_space(s[k]),
    ensures
        leading_space(s) == k,
    decreases k,
{
    if k > 0 {
        let t = s.drop_first();
        assert forall|j: int| 0 <= j < k - 1 implies is_white_space(#[trigger] t[j]) by {
            assert(t[j] == s[j + 1]);
        }
        if k - 1 < t.len() {
            assert(t[k - 1] == s[k]);
        }
        lemma_leading_space(t, k - 1);
    }
}

/// `trailing_space(s) == k` exactly when the last `k` characters are white space and
/// the one before them, if any, is not.
pub proof fn lemma_trailing_space(s: Seq<char>, k: int)
    requires
        0 <= k <= s.len(),
        forall|j: int| s.len() - k <= j < s.len() ==> is_white_space(#[trigger] s[j]),
        k == s.len() || !is_white_space(s[s.len() - k - 1]),
    ensures
        trailing_space(s) == k,
    decreases k,
{
    if k > 0 {
        let t = s.drop_last();
        assert forall|j: int| t.len() - (k - 1) <= j < t.len() implies is_white_space(
            #[trigger] t[j],
        ) by {
            assert(t[j] == s[j]);
        }
        if k - 1 < t.len() {
            assert(t[t.len() - (k - 1) - 1] == s[s.len() - k - 1]);
        }
        lemma_trailing_space(t, k - 1);
    }
}

/// `s` without its leading and trailing white space.
pub fn trim_chars(s: &Vec<char>) -> (t: Vec<char>)
    ensures
        t@ == trim(s@),
{
    let n = s.len();
    let mut a: usize = 0;
    while a < n && white_space(s[a])
        invariant
            a <= n == s@.len(),
            forall|j: int| 0 <= j < a ==> is_white_space(#[trigger] s@[j]),
        decreases n - a,
    {
        a = a + 1;
    }
    proof {
        lemma_leading_space(s@, a as int);
    }
    let ghost rest = s@.skip(a as int);
    let mut b: usize = n;
    while b > a && white_space(s[b - 1])
        invariant
            a <= b <= n == s@.len(),
            rest == s@.skip(a as int),
            forall|j: int| b <= j < n ==> is_white_space(#[trigger] s@[j]),
        decreases b,
    {
        b = b - 1;
    }
    proof {
        assert forall|j: int| rest.len() - (n - b) <= j < rest.len() implies is_white_space(
            #[trigger] rest[j],
        ) by {
            assert(rest[j] == s@[j + a]);
        }
        if b > a {
            assert(rest[rest.len() - (n - b) - 1] == s@[b - 1]);
        }
        lemma_trailing_space(rest, (n - b) as int);
    }
    let mut t: Vec<char> = Vec::new();
    let mut i: usize = a;
    while i < b
        invariant
            a <= i <= b <= n == s@.len(),
            t@ == s@.subrange(a as int, i as int),
        decreases b - i,
    {
        t.push(s[i]);
        i = i + 1;
        assert(t@ =~= s@.subrange(a as int, i as int));
    }
    assert(t@ =~= trim(s@));
    t
}

} // verus!

verus! {

/// `std::str::from_utf8`: `Some` exactly when `bytes` are well-formed UTF-8 (no
/// overlong forms, no surrogates, nothing past U+10FFFF), holding the characters they
/// encode.
#[verifier::external_body]
pub(crate) fn utf8_str(bytes: &[u8]) -> (r: Option<&str>)
    ensures
        r is Some <==> vstd::utf8::valid_utf8(bytes@),
        r matches Some(s) ==> s@ == vstd::utf8::decode_utf8(bytes@),
{
    std::str::from_utf8(bytes).ok()
}

} // verus!

verus! {

/// Appends the characters of `s` to `out`.
pub fn push_str(out: &mut Vec<char>, s: &str)
    ensures
        final(out)@ == old(out)@ + s@,
{
    let mut cs = chars_of(s);
    out.append(&mut cs);
}

/// Appends the characters of `s` to `out`.
pub fn push_chars(out: &mut Vec<char>, s: &Vec<char>)
    ensures
        final(out)@ == old(out)@ + s@,
{
    let mut i: usize = 0;
    while i < s.len()
        invariant
            i <= s@.len(),
            out@ == old(out)@ + s@.take(i as int),
        decreases s@.len() - i,
    {
        out.push(s[i]);
        i = i + 1;
        assert(out@ =~= old(out)@ + s@.take(i as int));
    }
    assert(s@.take(s@.len() as int) =~= s@);
}

} // verus!

verus! {

/// Whether `a` and `b` hold the same characters.
pub fn chars_eq(a: &Vec<char>, b: &Vec<char>) -> (r: bool)
    ensures
        r == (a@ == b@),
{
    if a.len() != b.len() {
        return false;
    }
    let mut i: usize = 0;
    while i < a.len()
        invariant
            a@.len() == b@.len(),
            i <= a@.len(),
            forall|j: int| 0 <= j < i ==> a@[j] == b@[j],
        decreases a@.len() - i,
    {
        if a[i] != b[i] {
            return false;
        }
        i = i + 1;
    }
    assert(a@ =~= b@);
    true
}

/// Whether `s` begins with `prefix`.
pub open spec fn starts_with(s: Seq<char>, prefix: Seq<char>) -> bool {
    prefix.len() <= s.len() && s.take(prefix.len() as int) == prefix
}

/// Whether `pat` occurs in `s` at `at`.
pub open spec fn occurs_at(s: Seq<char>, pat: Seq<char>, at: int) -> bool {
    0 <= at && at + pat.len() <= s.len() && s.subrange(at, at + pat.len()) == pat
}

/// Whether `pat` occurs somewhere in `s`.
pub open spec fn contains(s: Seq<char>, pat: Seq<char>) -> bool {
    exists|at: int| occurs_at(s, pat, at)
}

/// Whether `pat` occurs in `s` at `at`.
fn occurs_at_exec(s: &Vec<char>, pat: &Vec<char>, at: usize) -> (r: bool)
    ensures
        r == occurs_at(s@, pat@, at as int),
{
    if at > s.len() || pat.len() > s.len() - at {
        return false;
    }
    let mut i: usize = 0;
    let slen = s.len();
    while i < pat.len()
        invariant
            slen == s@.len(),
            at + pat@.len() <= s@.len(),
            i <= pat@.len(),
            forall|j: int| 0 <= j < i ==> s@[at + j] == pat@[j],
        decreases pat@.len() - i,
    {
        if s[at + i] != pat[i] {
            assert(s@.subrange(at as int, at + pat@.len())[i as int] != pat@[i as int]);
            return false;
        }
        i = i + 1;
    }
    assert(s@.subrange(at as int, at + pat@.len()) =~= pat@);
    true
}

/// Whether `s` begins with `prefix`.
pub fn starts_with_exec(s: &Vec<char>, prefix: &Vec<char>) -> (r: bool)
    ensures
        r == starts_with(s@, prefix@),
{
    occurs_at_exec(s, prefix, 0)
}

/// Whether `pat` occurs somewhere in `s`.
pub fn contains_exec(s: &Vec<char>, pat: &Vec<char>) -> (r: bool)
    ensures
        r == contains(s@, pat@),
{
    if pat.len() > s.len() {
        assert forall|at: int| !occurs_at(s@, pat@, at) by {}
        return false;
    }
    if pat.len() == 0 {
        assert(s@.subrange(0, 0) =~= pat@);
        assert(occurs_at(s@, pat@, 0));
        return true;
    }
    let mut at: usize = 0;
    while at <= s.len() - pat.len()
        invariant
            1 <= pat@.len() <= s@.len(),
            at <= s@.len() - pat@.len() + 1,
            forall|j: int| 0 <= j < at ==> !occurs_at(s@, pat@, j),
        decreases s@.len() - pat@.len() + 1 - at,
    {
        if occurs_at_exec(s, pat, at) {
            return true;
        }
        at = at + 1;
    }
    assert forall|j: int| !occurs_at(s@, pat@, j) by {
        if 0 <= j < at {
        }
    }
    false
}

} // verus!

verus! {

/// The number of characters before the first line feed of `s` (all of them if none).
pub open spec fn line_len(s: Seq<char>) -> nat
    decreases s.len(),
{
    if s.len() == 0 || s[0] == '\n' {
        0
    } else {
        1 + line_len(s.drop_first())
    }
}

/// `line_len(s) == k` exactly when no line feed comes before `k` and one stands at `k`,
/// unless `k` is the end.
pub proof fn lemma_line_len(s: Seq<char>, k: int)
    requires
        0 <= k <= s.len(),
        forall|j: int| 0 <= j < k ==> #[trigger] s[j] != '\n',
        k == s.len() || s[k] == '\n',
    ensures
        line_len(s) == k,
    decreases k,
{
    if k > 0 {
        let t = s.drop_first();
        assert forall|j: int| 0 <= j < k - 1 implies #[trigger] t[j] != '\n' by {
            assert(t[j] == s[j + 1]);
        }
        if k - 1 < t.len() {
            assert(t[k - 1] == s[k]);
        }
        lemma_line_len(t, k - 1);
    }
}

/// `line` without a final carriage return.
pub open spec fn strip_cr(line: Seq<char>) -> Seq<char> {
    if line.len() > 0 && line.last() == '\r' {
        line.drop_last()
    } else {
        line
    }
}

/// The lines of `s`, as `str::lines` yields them: split at each line feed, with the
/// carriage return before a line feed dropped, and no empty line after a final line feed.
pub open spec fn lines(s: Seq<char>) -> Seq<Seq<char>>
    decreases s.len(),
{
    if s.len() == 0 {
        seq![]
    } else if line_len(s) >= s.len() {
        seq![s]
    } else {
        seq![strip_cr(s.take(line_len(s) as int))] + lines(s.skip((line_len(s) + 1) as int))
    }
}

/// The characters of each vector.
pub open spec fn texts_view(v: Seq<Vec<char>>) -> Seq<Seq<char>> {
    v.map_values(|l: Vec<char>| l@)
}

/// The characters of `s` from `start` to `end`.
pub fn slice_chars(s: &Vec<char>, start: usize, end: usize) -> (t: Vec<char>)
    requires
        start <= end <= s@.len(),
    ensures
        t@ == s@.subrange(start as int, end as int),
{
    let mut t: Vec<char> = Vec::new();
    let mut i: usize = start;
    while i < end
        invariant
            start <= i <= end <= s@.len(),
            t@ == s@.subrange(start as int, i as int),
        decreases end - i,
    {
        t.push(s[i]);
        i = i + 1;
        assert(t@ =~= s@.subrange(start as int, i as int));
    }
    t
}

/// The lines of `s`.
pub fn split_lines(s: &Vec<char>) -> (out: Vec<Vec<char>>)
    ensures
        texts_view(out@) == lines(s@),
{
    let n = s.len();
    let mut out: Vec<Vec<char>> = Vec::new();
    let mut pos: usize = 0;
    assert(s@.skip(0) =~= s@);
    while pos < n
        invariant
            n == s@.len(),
            pos <= n,
            lines(s@) == texts_view(out@) + lines(s@.skip(pos as int)),
        decreases n - pos,
    {
        let ghost t = s@.skip(pos as int);
        let mut k: usize = pos;
        while k < n && s[k] != '\n'
            invariant
                pos <= k <= n == s@.len(),
                forall|j: int| pos <= j < k ==> s@[j] != '\n',
            decreases n - k,
        {
            k = k + 1;
        }
        proof {
            assert forall|j: int| 0 <= j < k - pos implies #[trigger] t[j] != '\n' by {
                assert(t[j] == s@[pos + j]);
            }
            if k < n {
                assert(t[k - pos] == s@[k as int]);
            }
            lemma_line_len(t, k - pos);
        }
        let ghost before = texts_view(out@);
        if k == n {
            let line = slice_chars(s, pos, n);
            assert(line@ =~= t);
            out.push(line);
            assert(texts_view(out@) =~= before + seq![t]);
            pos = n;
            assert(s@.skip(n as int) =~= Seq::<char>::empty());
        } else {
            let mut line = slice_chars(s, pos, k);
            if line.len() > 0 && line[line.len() - 1] == '\r' {
                line.pop();
            }
            assert(s@.subrange(pos as int, k as int) =~= t.take(k - pos));
            assert(line@ =~= strip_cr(t.take(k - pos)));
            out.push(line);
            assert(texts_view(out@) =~= before + seq![strip_cr(t.take(k - pos))]);
            assert(t.skip(k - pos + 1) =~= s@.skip(k + 1));
            pos = k + 1;
        }
    }
    assert(s@.skip(n as int) =~= Seq::<char>::empty());
    assert(texts_view(out@) + Seq::<Seq<char>>::empty() =~= texts_view(out@));
    out
}

} // verus!

verus! {

/// The leading white space of `s` is no longer than `s`, and the character after it,
/// if any, is not white space.
pub proof fn lemma_leading_space_bound(s: Seq<char>)
    ensures
        leading_space(s) <= s.len(),
        leading_space(s) < s.len() ==> !is_white_space(s[leading_space(s) as int]),
        forall|j: int| 0 <= j < leading_space(s) ==> is_white_space(#[trigger] s[j]),
    decreases s.len(),
{
    if s.len() > 0 && is_white_space(s[0]) {
        let t = s.drop_first();
        lemma_leading_space_bound(t);
        assert forall|j: int| 0 <= j < leading_space(s) implies is_white_space(#[trigger] s[j]) by {
            if j > 0 {
                assert(s[j] == t[j - 1]);
            }
        }
        if leading_space(s) < s.len() {
            assert(s[leading_space(s) as int] == t[leading_space(t) as int]);
        }
    }
}

/// The number of characters before the first white space of `s` (all if none).
pub open spec fn word_len(s: Seq<char>) -> nat
    decreases s.len(),
{
    if s.len() == 0 || is_white_space(s[0]) {
        0
    } else {
        1 + word_len(s.drop_first())
    }
}

/// `word_len(s) == k` exactly when no white space comes before `k` and some stands at
/// `k`, unless `k` is the end.
pub proof fn lemma_word_len(s: Seq<char>, k: int)
    requires
        0 <= k <= s.len(),
        forall|j: int| 0 <= j < k ==> !is_white_space(#[trigger] s[j]),
        k == s.len() || is_white_space(s[k]),
    ensures
        word_len(s) == k,
    decreases k,
{
    if k > 0 {
        let t = s.drop_first();
        assert forall|j: int| 0 <= j < k - 1 implies !is_white_space(#[trigger] t[j]) by {
            assert(t[j] == s[j + 1]);
        }
        if k - 1 < t.len() {
            assert(t[k - 1] == s[k]);
        }
        lemma_word_len(t, k - 1);
    }
}

/// A word is no longer than the text, and at least one character long when the text
/// starts with something other than white space.
pub proof fn lemma_word_len_bound(s: Seq<char>)
    ensures
        word_len(s) <= s.len(),
        s.len() > 0 && !is_white_space(s[0]) ==> word_len(s) >= 1,
    decreases s.len(),
{
    if s.len() > 0 && !is_white_space(s[0]) {
        lemma_word_len_bound(s.drop_first());
    }
}

/// The words of `s` as `str::split_whitespace` yields them: the maximal runs of
/// characters that are not white space.
pub open spec fn words(s: Seq<char>) -> Seq<Seq<char>>
    decreases s.len(),
{
    if leading_space(s) >= s.len() {
        seq![]
    } else {
        let t = s.skip(leading_space(s) as int);
        proof {
            lemma_leading_space_bound(s);
            lemma_word_len_bound(t);
        }
        seq![t.take(word_len(t) as int)] + words(t.skip(word_len(t) as int))
    }
}

/// `parts` joined, with `sep` between neighbours (`[..].join(sep)`).
pub open spec fn join(parts: Seq<Seq<char>>, sep: Seq<char>) -> Seq<char>
    decreases parts.len(),
{
    if parts.len() == 0 {
        seq![]
    } else if parts.len() == 1 {
        parts[0]
    } else {
        join(parts.drop_last(), sep) + sep + parts.last()
    }
}

/// The words of `s`.
pub fn split_words(s: &Vec<char>) -> (out: Vec<Vec<char>>)
    ensures
        texts_view(out@) == words(s@),
{
    let n = s.len();
    let mut out: Vec<Vec<char>> = Vec::new();
    let mut pos: usize = 0;
    assert(s@.skip(0) =~= s@);
    loop
        invariant
            n == s@.len(),
            pos <= n,
            words(s@) == texts_view(out@) + words(s@.skip(pos as int)),
        decreases n - pos,
    {
        let ghost u = s@.skip(pos as int);
        let mut a: usize = pos;
        while a < n && white_space(s[a])
            invariant
                pos <= a <= n == s@.len(),
                forall|j: int| pos <= j < a ==> is_white_space(#[trigger] s@[j]),
            decreases n - a,
        {
            a = a + 1;
        }
        proof {
            assert forall|j: int| 0 <= j < a - pos implies is_white_space(#[trigger] u[j]) by {
                assert(u[j] == s@[pos + j]);
            }
            if a < n {
                assert(u[a - pos] == s@[a as int]);
            }
            lemma_leading_space(u, a - pos);
        }
        if a == n {
            assert(texts_view(out@) + words(u) =~= texts_view(out@));
            return out;
        }
        let ghost t = u.skip(a - pos);
        assert(t =~= s@.skip(a as int));
        let mut b: usize = a;
        while b < n && !white_space(s[b])
            invariant
                a <= b <= n == s@.len(),
                forall|j: int| a <= j < b ==> !is_white_space(#[trigger] s@[j]),
            decreases n - b,
        {
            b = b + 1;
        }
        proof {
            assert forall|j: int| 0 <= j < b - a implies !is_white_space(#[trigger] t[j]) by {
                assert(t[j] == s@[a + j]);
            }
            if b < n {
                assert(t[b - a] == s@[b as int]);
            }
            lemma_word_len(t, b - a);
        }
        let ghost before = texts_view(out@);
        let word = slice_chars(s, a, b);
        assert(word@ =~= t.take(b - a));
        out.push(word);
        assert(texts_view(out@) =~= before + seq![t.take(b - a)]);
        assert(t.skip(b - a) =~= s@.skip(b as int));
        pos = b;
    }
}

/// Appends `parts` joined with `sep` between neighbours to `out`.
pub fn push_joined(out: &mut Vec<char>, parts: &Vec<Vec<char>>, sep: &Vec<char>)
    ensures
        final(out)@ == old(out)@ + join(texts_view(parts@), sep@),
{
    let mut i: usize = 0;
    while i < parts.len()
        invariant
            i <= parts@.len(),
            out@ == old(out)@ + join(texts_view(parts@.take(i as int)), sep@),
        decreases parts@.len() - i,
    {
        let ghost before = out@;
        if i > 0 {
            push_chars(out, sep);
        }
        push_chars(out, &parts[i]);
        i = i + 1;
        proof {
            let p = texts_view(parts@.take(i as int));
            assert(p.drop_last() =~= texts_view(parts@.take(i - 1)));
            assert(p.last() == parts@[i - 1]@);
            if i == 1 {
                assert(join(p, sep@) == parts@[0]@);
                assert(texts_view(parts@.take(0)) =~= Seq::<Seq<char>>::empty());
            }
        }
    }
    assert(parts@.take(parts@.len() as int) =~= parts@);
}

/// The number of `/` at the end of `s`.
pub open spec fn trailing_slashes(s: Seq<char>) -> nat
    decreases s.len(),
{
    if s.len() > 0 && s.last() == '/' {
        1 + trailing_slashes(s.drop_last())
    } else {
        0
    }
}

/// There are no more `/` at the end than characters.
pub proof fn lemma_trailing_slashes_bound(s: Seq<char>)
    ensures
        trailing_slashes(s) <= s.len(),
    decreases s.len(),
{
    if s.len() > 0 && s.last() == '/' {
        lemma_trailing_slashes_bound(s.drop_last());
    }
}

/// `s` without the `/` at its end (`str::trim_end_matches('/')`).
pub open spec fn trim_slashes(s: Seq<char>) -> Seq<char> {
    s.take(s.len() - trailing_slashes(s))
}

/// `s` without the `/` at its end.
pub fn trim_slashes_exec(s: &Vec<char>) -> (t: Vec<char>)
    ensures
        t@ == trim_slashes(s@),
{
    let mut t = slice_chars(s, 0, s.len());
    assert(t@ =~= s@);
    while t.len() > 0 && t[t.len() - 1] == '/'
        invariant
            trim_slashes(t@) == trim_slashes(s@),
        decreases t@.len(),
    {
        let ghost before = t@;
        t.pop();
        assert(t@ =~= before.drop_last());
        assert(trailing_slashes(before) == 1 + trailing_slashes(t@));
        assert(trailing_slashes(t@) <= t@.len()) by {
            lemma_trailing_slashes_bound(t@);
        }
        assert(trim_slashes(t@) =~= trim_slashes(before));
    }
    assert(t@.take(t@.len() as int) =~= t@);
    t
}

/// `s` after `prefix`, when it begins with it (`str::strip_prefix`).
pub open spec fn strip_prefix(s: Seq<char>, prefix: Seq<char>) -> Option<Seq<char>> {
    if starts_with(s, prefix) {
        Some(s.skip(prefix.len() as int))
    } else {
        None
    }
}

/// What `str::to_lowercase` makes of a text: its Unicode lowercase mapping.
pub uninterp spec fn lowercase(s: Seq<char>) -> Seq<char>;

/// What `str::to_uppercase` makes of a text: its Unicode uppercase mapping.
pub uninterp spec fn uppercase(s: Seq<char>) -> Seq<char>;

/// Every character of `s` is ASCII.
pub open spec fn is_ascii_text(s: Seq<char>) -> bool {
    forall|i: int| 0 <= i < s.len() ==> (#[trigger] s[i] as u32) < 128
}

/// `c` with an ASCII capital letter made small.
pub open spec fn ascii_lower(c: char) -> char {
    if 'A' <= c <= 'Z' {
        ((c as u32) + 32) as char
    } else {
        c
    }
}

/// `c` with an ASCII small letter made capital.
pub open spec fn ascii_upper(c: char) -> char {
    if 'a' <= c <= 'z' {
        ((c as u32) - 32) as char
    } else {
        c
    }
}

/// `s` with its ASCII capital letters made small.
pub open spec fn ascii_lowercase(s: Seq<char>) -> Seq<char> {
    s.map_values(|c: char| ascii_lower(c))
}

/// `s` with its ASCII small letters made capital.
pub open spec fn ascii_uppercase(s: Seq<char>) -> Seq<char> {
    s.map_values(|c: char| ascii_upper(c))
}

/// `str::to_lowercase`: the lowercase mapping of `s`, named `lowercase`. On ASCII text
/// the Unicode mapping makes A to Z small and keeps every other character.
#[verifier::external_body]
pub(crate) fn to_lowercase(s: &str) -> (r: String)
    ensures
        r@ == lowercase(s@),
        is_ascii_text(s@) ==> r@ == ascii_lowercase(s@),
{
    s.to_lowercase()
}

/// `str::to_uppercase`: the uppercase mapping of `s`, named `uppercase`. On ASCII text
/// the Unicode mapping makes a to z capital and keeps every other character.
#[verifier::external_body]
pub(crate) fn to_uppercase(s: &str) -> (r: String)
    ensures
        r@ == uppercase(s@),
        is_ascii_text(s@) ==> r@ == ascii_uppercase(s@),
{
    s.to_uppercase()
}

} // verus!

verus! {

/// The number of characters of `s` before the first `c` (all of them if none).
pub open spec fn len_until(s: Seq<char>, c: char) -> nat
    decreases s.len(),
{
    if s.len() == 0 || s[0] == c {
        0
    } else {
        1 + len_until(s.drop_first(), c)
    }
}

/// `len_until(s, c) == k` exactly when no `c` comes before `k` and one stands at `k`,
/// unless `k` is the end.
pub proof fn lemma_len_until(s: Seq<char>, c: char, k: int)
    requires
        0 <= k <= s.len(),
        forall|j: int| 0 <= j < k ==> #[trigger] s[j] != c,
        k == s.len() || s[k] == c,
    ensures
        len_until(s, c) == k,
    decreases k,
{
    if k > 0 {
        let t = s.drop_first();
        assert forall|j: int| 0 <= j < k - 1 implies #[trigger] t[j] != c by {
            assert(t[j] == s[j + 1]);
        }
        if k - 1 < t.len() {
            assert(t[k - 1] == s[k]);
        }
        lemma_len_until(t, c, k - 1);
    }
}

/// The part of `s` before the first `c`, and the part after it (empty when there is
/// no `c`): the two pieces of `s.splitn(2, c)`, the second defaulting to empty.
pub open spec fn split_once(s: Seq<char>, c: char) -> (Seq<char>, Seq<char>) {
    let k = len_until(s, c);
    if k < s.len() {
        (s.take(k as int), s.skip((k + 1) as int))
    } else {
        (s, Seq::empty())
    }
}

/// The part of `s` before the first `c`, and the part after it (empty when none).
pub fn split_once_exec(s: &Vec<char>, c: char) -> (r: (Vec<char>, Vec<char>))
    ensures
        r.0@ == split_once(s@, c).0,
        r.1@ == split_once(s@, c).1,
{
    let n = s.len();
    let mut k: usize = 0;
    while k < n && s[k] != c
        invariant
            k <= n == s@.len(),
            forall|j: int| 0 <= j < k ==> s@[j] != c,
        decreases n - k,
    {
        k = k + 1;
    }
    proof {
        lemma_len_until(s@, c, k as int);
    }
    if k < n {
        (slice_chars(s, 0, k), slice_chars(s, k + 1, n))
    } else {
        let all = slice_chars(s, 0, n);
        assert(all@ =~= s@);
        (all, Vec::new())
    }
}

} // verus!

verus! {

/// What `String::from_utf8_lossy` makes of bytes: their UTF-8 characters, with each
/// invalid sequence replaced by U+FFFD.
pub uninterp spec fn lossy_utf8(bytes: Seq<u8>) -> Seq<char>;

/// `String::from_utf8_lossy`, owned: the characters of `bytes`, named `lossy_utf8`;
/// bytes that are valid UTF-8 are decoded as they are.
#[verifier::external_body]
pub(crate) fn utf8_lossy(bytes: &[u8]) -> (s: String)
    ensures
        s@ == lossy_utf8(bytes@),
        vstd::utf8::valid_utf8(bytes@) ==> s@ == vstd::utf8::decode_utf8(bytes@),
{
    String::from_utf8_lossy(bytes).into_owned()
}

} // verus!
