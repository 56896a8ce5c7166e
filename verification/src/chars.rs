//! Character-level helpers shared by the parsing and rendering modules.
//!
//! The library addresses text by Unicode scalar values, so most algorithms
//! work on a `Vec<char>` copy of the input and build their output by pushing
//! characters onto a `String`.

use vstd::prelude::*;

verus! {

/// Relies on `String::push`: appends the given character to the end of the
/// string.
pub assume_specification[ String::push ](s: &mut String, ch: char)
    ensures
        final(s)@ == old(s)@.push(ch),
;

/// Copy the characters of a string slice into a vector.
pub fn chars_of(s: &str) -> (v: Vec<char>)
    ensures
        v@ == s@,
{
    let n = s.unicode_len();
    let mut v: Vec<char> = Vec::new();
    let mut i: usize = 0;
    while i < n
        invariant
            i <= n,
            n == s@.len(),
            v@ == s@.subrange(0, i as int),
        decreases n - i,
    {
        let c = s.get_char(i);
        v.push(c);
        i = i + 1;
        assert(v@ =~= s@.subrange(0, i as int));
    }
    assert(v@ =~= s@);
    v
}

/// Append every character of a vector to a string.
pub fn push_chars(out: &mut String, v: &Vec<char>)
    ensures
        final(out)@ == old(out)@ + v@,
{
    let mut i: usize = 0;
    while i < v.len()
        invariant
            i <= v@.len(),
            out@ == old(out)@ + v@.subrange(0, i as int),
        decreases v@.len() - i,
    {
        out.push(v[i]);
        i = i + 1;
        assert(out@ =~= old(out)@ + v@.subrange(0, i as int));
    }
    assert(out@ =~= old(out)@ + v@);
}

/// Build a string from a vector of characters.
pub fn string_of(v: &Vec<char>) -> (r: String)
    ensures
        r@ == v@,
{
    let mut out = String::new();
    push_chars(&mut out, v);
    assert(out@ =~= v@);
    out
}

/// A string of `n` copies of one character.
pub open spec fn spec_repeat_char(c: char, n: int) -> Seq<char> {
    Seq::new(n as nat, |i: int| c)
}

/// Append `n` copies of a character to a string.
pub fn push_repeated(out: &mut String, c: char, n: usize)
    ensures
        final(out)@ == old(out)@ + spec_repeat_char(c, n as int),
{
    let mut i: usize = 0;
    while i < n
        invariant
            i <= n,
            out@ == old(out)@ + spec_repeat_char(c, i as int),
        decreases n - i,
    {
        out.push(c);
        i = i + 1;
        assert(out@ =~= old(out)@ + spec_repeat_char(c, i as int));
    }
}

/// The character for one decimal digit.
pub open spec fn spec_digit_char(d: int) -> char {
    if d == 0 {
        '0'
    } else if d == 1 {
        '1'
    } else if d == 2 {
        '2'
    } else if d == 3 {
        '3'
    } else if d == 4 {
        '4'
    } else if d == 5 {
        '5'
    } else if d == 6 {
        '6'
    } else if d == 7 {
        '7'
    } else if d == 8 {
        '8'
    } else {
        '9'
    }
}

/// The decimal representation of a non-negative integer, most significant
/// digit first, with no leading zeros (a single zero for zero itself).
pub open spec fn spec_decimal(n: int) -> Seq<char>
    decreases n,
{
    if n < 10 {
        seq![spec_digit_char(n)]
    } else {
        spec_decimal(n / 10).push(spec_digit_char(n % 10))
    }
}

fn digit_char(d: usize) -> (c: char)
    requires
        d < 10,
    ensures
        c == spec_digit_char(d as int),
{
    if d == 0 {
        '0'
    } else if d == 1 {
        '1'
    } else if d == 2 {
        '2'
    } else if d == 3 {
        '3'
    } else if d == 4 {
        '4'
    } else if d == 5 {
        '5'
    } else if d == 6 {
        '6'
    } else if d == 7 {
        '7'
    } else if d == 8 {
        '8'
    } else {
        '9'
    }
}

/// Append the decimal representation of `n` to a string.
pub fn push_decimal(out: &mut String, n: usize)
    ensures
        final(out)@ == old(out)@ + spec_decimal(n as int),
    decreases n,
{
    if n < 10 {
        let c = digit_char(n);
        out.push(c);
    } else {
        assert(n / 10 < n && n / 10 >= 1) by (nonlinear_arith)
            requires
                n >= 10,
        ;
        push_decimal(out, n / 10);
        let c = digit_char(n % 10);
        out.push(c);
    }
}

/// The parts joined with the separator between consecutive parts.
pub open spec fn spec_join(parts: Seq<Seq<char>>, sep: Seq<char>) -> Seq<char>
    decreases parts.len(),
{
    if parts.len() == 0 {
        Seq::empty()
    } else if parts.len() == 1 {
        parts[0]
    } else {
        parts[0] + sep + spec_join(parts.drop_first(), sep)
    }
}

/// Joining one more part appends a separator first, except to an empty
/// list of parts.
pub proof fn lemma_join_push(parts: Seq<Seq<char>>, sep: Seq<char>, part: Seq<char>)
    ensures
        spec_join(parts.push(part), sep) == if parts.len() == 0 {
            part
        } else {
            spec_join(parts, sep) + sep + part
        },
    decreases parts.len(),
{
    if parts.len() == 0 {
        assert(parts.push(part)[0] =~= part);
    } else {
        lemma_join_push(parts.drop_first(), sep, part);
        assert(parts.push(part).drop_first() =~= parts.drop_first().push(part));
        if parts.len() == 1 {
            assert(spec_join(parts.push(part), sep) =~= parts[0] + sep + part);
            assert(spec_join(parts, sep) + sep + part =~= parts[0] + sep + part);
        } else {
            assert(spec_join(parts.push(part), sep) =~= parts[0] + sep + spec_join(
                parts.drop_first().push(part),
                sep,
            ));
            assert(parts[0] + sep + (spec_join(parts.drop_first(), sep) + sep + part) =~= (parts[0]
                + sep + spec_join(parts.drop_first(), sep)) + sep + part);
        }
    }
}

/// Append the parts to a string, separated by `sep`.
pub fn join_into(out: &mut String, parts: &Vec<String>, sep: &str)
    ensures
        final(out)@ == old(out)@ + spec_join(parts@.map_values(|p: String| p@), sep@),
{
    let ghost views = parts@.map_values(|p: String| p@);
    let mut i: usize = 0;
    proof {
        assert(out@ =~= old(out)@ + spec_join(views.take(0), sep@));
    }
    while i < parts.len()
        invariant
            i <= parts@.len(),
            views == parts@.map_values(|p: String| p@),
            out@ == old(out)@ + spec_join(views.take(i as int), sep@),
        decreases parts@.len() - i,
    {
        if i > 0 {
            out.append(sep);
        }
        out.append(parts[i].as_str());
        i = i + 1;
        proof {
            lemma_join_push(views.take(i - 1), sep@, views[i - 1]);
            assert(views.take(i as int) =~= views.take(i - 1).push(views[i - 1]));
            assert(out@ =~= old(out)@ + spec_join(views.take(i as int), sep@));
        }
    }
    proof {
        assert(views.take(views.len() as int) =~= views);
    }
}

/// Whitespace, as used to split style strings into tokens.
pub open spec fn spec_is_space(c: char) -> bool {
    c == ' ' || c == '\t' || c == '\n' || c == '\r' || c == '\u{b}' || c == '\u{c}'
}

pub fn is_space(c: char) -> (r: bool)
    ensures
        r == spec_is_space(c),
{
    c == ' ' || c == '\t' || c == '\n' || c == '\r' || c == '\u{b}' || c == '\u{c}'
}

/// The length of the leading run of characters other than `c`.
pub open spec fn spec_until(s: Seq<char>, c: char) -> int
    decreases s.len(),
{
    if s.len() == 0 || s[0] == c {
        0
    } else {
        1 + spec_until(s.drop_first(), c)
    }
}

pub proof fn lemma_until_bounds(s: Seq<char>, c: char)
    ensures
        0 <= spec_until(s, c) <= s.len(),
    decreases s.len(),
{
    if s.len() > 0 && s[0] != c {
        lemma_until_bounds(s.drop_first(), c);
    }
}

/// Where the first `k` characters differ from `c` and the character at
/// `k` (if any) is `c`, the leading run has length exactly `k`.
pub proof fn lemma_until_is(s: Seq<char>, c: char, k: int)
    requires
        0 <= k <= s.len(),
        forall|j: int| 0 <= j < k ==> s[j] != c,
        k == s.len() || s[k] == c,
    ensures
        spec_until(s, c) == k,
    decreases k,
{
    if k > 0 {
        lemma_until_is(s.drop_first(), c, k - 1);
    }
}

/// The sequence with leading whitespace removed.
pub open spec fn spec_trim_start(s: Seq<char>) -> Seq<char>
    decreases s.len(),
{
    if s.len() > 0 && spec_is_space(s[0]) {
        spec_trim_start(s.drop_first())
    } else {
        s
    }
}

/// The sequence with trailing whitespace removed.
pub open spec fn spec_trim_end(s: Seq<char>) -> Seq<char>
    decreases s.len(),
{
    if s.len() > 0 && spec_is_space(s.last()) {
        spec_trim_end(s.drop_last())
    } else {
        s
    }
}

/// The sequence with whitespace removed from both ends.
pub open spec fn spec_trim(s: Seq<char>) -> Seq<char> {
    spec_trim_end(spec_trim_start(s))
}

/// Where the first `k` characters are whitespace and the character at `k`
/// (if any) is not, trimming the start keeps exactly the tail from `k`.
pub proof fn lemma_trim_start_index(s: Seq<char>, k: int)
    requires
        0 <= k <= s.len(),
        forall|j: int| 0 <= j < k ==> spec_is_space(s[j]),
        k == s.len() || !spec_is_space(s[k]),
    ensures
        spec_trim_start(s) == s.subrange(k, s.len() as int),
    decreases k,
{
    if k == 0 {
        assert(s.subrange(0, s.len() as int) =~= s);
    } else {
        lemma_trim_start_index(s.drop_first(), k - 1);
        assert(s.drop_first().subrange(k - 1, s.drop_first().len() as int) =~= s.subrange(
            k,
            s.len() as int,
        ));
    }
}

/// Where the characters from `k` on are whitespace and the character
/// before `k` (if any) is not, trimming the end keeps exactly the head up
/// to `k`.
pub proof fn lemma_trim_end_index(s: Seq<char>, k: int)
    requires
        0 <= k <= s.len(),
        forall|j: int| k <= j < s.len() ==> spec_is_space(s[j]),
        k == 0 || !spec_is_space(s[k - 1]),
    ensures
        spec_trim_end(s) == s.subrange(0, k),
    decreases s.len() - k,
{
    if k == s.len() {
        if s.len() > 0 && spec_is_space(s.last()) {
            assert(false);
        }
        assert(s.subrange(0, s.len() as int) =~= s);
        if s.len() == 0 {
            assert(spec_trim_end(s) =~= s.subrange(0, k));
        }
    } else {
        assert(spec_is_space(s.last()));
        lemma_trim_end_index(s.drop_last(), k);
        assert(s.drop_last().subrange(0, k) =~= s.subrange(0, k));
    }
}

/// Trim whitespace from both ends of a string.
pub fn trim_of(s: &str) -> (r: String)
    ensures
        r@ == spec_trim(s@),
{
    let n = s.unicode_len();
    let mut start: usize = 0;
    while start < n && is_space(s.get_char(start))
        invariant
            start <= n,
            n == s@.len(),
            forall|j: int| 0 <= j < start ==> spec_is_space(s@[j]),
        decreases n - start,
    {
        start = start + 1;
    }
    proof {
        lemma_trim_start_index(s@, start as int);
    }
    let ghost trimmed_start = s@.subrange(start as int, n as int);
    let mut end: usize = n;
    while end > start && is_space(s.get_char(end - 1))
        invariant
            start <= end <= n,
            n == s@.len(),
            forall|j: int| end <= j < n ==> spec_is_space(s@[j]),
        decreases end,
    {
        end = end - 1;
    }
    proof {
        assert(forall|j: int|
            end - start <= j < trimmed_start.len() ==> spec_is_space(#[trigger] trimmed_start[j]));
        lemma_trim_end_index(trimmed_start, end - start);
        assert(trimmed_start.subrange(0, end - start) =~= s@.subrange(start as int, end as int));
    }
    let r = s.substring_char(start, end).to_owned();
    r
}

/// The length of the leading run of non-whitespace characters.
pub open spec fn spec_token_len(s: Seq<char>) -> int
    decreases s.len(),
{
    if s.len() == 0 || spec_is_space(s[0]) {
        0
    } else {
        1 + spec_token_len(s.drop_first())
    }
}

pub proof fn lemma_token_len_bounds(s: Seq<char>)
    ensures
        0 <= spec_token_len(s) <= s.len(),
        s.len() > 0 && !spec_is_space(s[0]) ==> spec_token_len(s) >= 1,
    decreases s.len(),
{
    if s.len() > 0 && !spec_is_space(s[0]) {
        lemma_token_len_bounds(s.drop_first());
    }
}

/// Where the first `k` characters are non-whitespace and the character at
/// `k` (if any) is whitespace, the leading token has length exactly `k`.
pub proof fn lemma_token_len_is(s: Seq<char>, k: int)
    requires
        0 <= k <= s.len(),
        forall|j: int| 0 <= j < k ==> !spec_is_space(s[j]),
        k == s.len() || spec_is_space(s[k]),
    ensures
        spec_token_len(s) == k,
    decreases k,
{
    if k > 0 {
        lemma_token_len_is(s.drop_first(), k - 1);
    }
}

/// The whitespace-separated tokens of a character sequence, in order.
pub open spec fn spec_split_ws(s: Seq<char>) -> Seq<Seq<char>>
    decreases s.len(),
    via spec_split_ws_dec
{
    if s.len() == 0 {
        Seq::empty()
    } else if spec_is_space(s[0]) {
        spec_split_ws(s.drop_first())
    } else {
        seq![s.take(spec_token_len(s))] + spec_split_ws(s.skip(spec_token_len(s)))
    }
}

#[via_fn]
proof fn spec_split_ws_dec(s: Seq<char>) {
    if s.len() > 0 && !spec_is_space(s[0]) {
        lemma_token_len_bounds(s);
    }
}

/// Split a character vector into its whitespace-separated tokens.
pub fn split_ws(v: &Vec<char>) -> (toks: Vec<Vec<char>>)
    ensures
        toks@.map_values(|t: Vec<char>| t@) == spec_split_ws(v@),
{
    let ghost full = spec_split_ws(v@);
    let mut toks: Vec<Vec<char>> = Vec::new();
    let mut i: usize = 0;
    proof {
        assert(v@.skip(0) =~= v@);
        assert(toks@.map_values(|t: Vec<char>| t@) =~= Seq::<Seq<char>>::empty());
    }
    while i < v.len()
        invariant
            i <= v@.len(),
            full == spec_split_ws(v@),
            full == toks@.map_values(|t: Vec<char>| t@) + spec_split_ws(v@.skip(i as int)),
        decreases v@.len() - i,
    {
        if is_space(v[i]) {
            proof {
                assert(v@.skip(i as int).drop_first() =~= v@.skip(i as int + 1));
            }
            i = i + 1;
        } else {
            let ghost rest = v@.skip(i as int);
            let start = i;
            let mut tok: Vec<char> = Vec::new();
            while i < v.len() && !is_space(v[i])
                invariant
                    start <= i <= v@.len(),
                    rest == v@.skip(start as int),
                    !spec_is_space(v@[start as int]),
                    tok@ == v@.subrange(start as int, i as int),
                    forall|j: int| start <= j < i ==> !spec_is_space(v@[j]),
                decreases v@.len() - i,
            {
                tok.push(v[i]);
                i = i + 1;
                assert(tok@ =~= v@.subrange(start as int, i as int));
            }
            proof {
                let k = i - start;
                assert(forall|j: int| 0 <= j < k ==> rest[j] == v@[start + j]
                    && !spec_is_space(rest[j]));
                if i < v@.len() {
                    assert(spec_is_space(rest[k]));
                }
                lemma_token_len_is(rest, k);
                assert(rest.take(k) =~= tok@);
                assert(rest.skip(k) =~= v@.skip(i as int));
            }
            toks.push(tok);
            proof {
                assert(toks@.map_values(|t: Vec<char>| t@) =~= toks@.drop_last().map_values(
                    |t: Vec<char>| t@,
                ).push(tok@));
            }
        }
    }
    proof {
        assert(v@.skip(i as int) =~= Seq::<char>::empty());
        assert(full =~= toks@.map_values(|t: Vec<char>| t@));
    }
    toks
}

/// Compare a character vector with a string slice.
pub fn chars_eq_str(v: &Vec<char>, s: &str) -> (r: bool)
    ensures
        r == (v@ == s@),
{
    let n = s.unicode_len();
    if v.len() != n {
        proof {
            assert(v@.len() != s@.len());
        }
        return false;
    }
    let mut i: usize = 0;
    while i < n
        invariant
            i <= n,
            n == s@.len(),
            v@.len() == n,
            forall|j: int| 0 <= j < i ==> v@[j] == s@[j],
        decreases n - i,
    {
        if v[i] != s.get_char(i) {
            return false;
        }
        i = i + 1;
    }
    proof {
        assert(v@ =~= s@);
    }
    true
}

/// Compare two string slices character by character.
pub fn str_eq(a: &str, b: &str) -> (r: bool)
    ensures
        r == (a@ == b@),
{
    let n = a.unicode_len();
    if b.unicode_len() != n {
        proof {
            assert(a@.len() != b@.len());
        }
        return false;
    }
    let mut i: usize = 0;
    while i < n
        invariant
            i <= n,
            n == a@.len(),
            b@.len() == n,
            forall|j: int| 0 <= j < i ==> a@[j] == b@[j],
        decreases n - i,
    {
        if a.get_char(i) != b.get_char(i) {
            return false;
        }
        i = i + 1;
    }
    proof {
        assert(a@ =~= b@);
    }
    true
}

/// ASCII lowercasing of one character; everything outside `A`..`Z` is kept.
pub open spec fn spec_lower_char(c: char) -> char {
    if 'A' <= c && c <= 'Z' {
        (((c as u32) + 32) as u8) as char
    } else {
        c
    }
}

/// ASCII lowercasing of a character sequence.
pub open spec fn spec_lower(s: Seq<char>) -> Seq<char> {
    s.map_values(|c: char| spec_lower_char(c))
}

pub fn lower_char(c: char) -> (r: char)
    ensures
        r == spec_lower_char(c),
{
    if 'A' <= c && c <= 'Z' {
        (((c as u32) + 32) as u8) as char
    } else {
        c
    }
}

/// ASCII-lowercase a vector of characters.
pub fn lower_chars(v: &Vec<char>) -> (r: Vec<char>)
    ensures
        r@ == spec_lower(v@),
{
    let mut out: Vec<char> = Vec::new();
    let mut i: usize = 0;
    while i < v.len()
        invariant
            i <= v@.len(),
            out@ == spec_lower(v@.subrange(0, i as int)),
        decreases v@.len() - i,
    {
        let c = lower_char(v[i]);
        out.push(c);
        i = i + 1;
        assert(out@ =~= spec_lower(v@.subrange(0, i as int)));
    }
    assert(v@.subrange(0, v@.len() as int) =~= v@);
    out
}

} // verus!
