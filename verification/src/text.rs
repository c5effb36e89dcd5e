//! Character-sequence utilities shared by the tokenizer, the parser and the
//! protocol modules.  Text is handled as `Vec<char>` internally; `String`
//! appears only at the edges.

use vstd::prelude::*;

verus! {

/// A character sequence `needle` occurs in `hay` at position `i`.
pub open spec fn match_at(hay: Seq<char>, needle: Seq<char>, i: int) -> bool {
    &&& 0 <= i
    &&& i + needle.len() <= hay.len()
    &&& hay.subrange(i, i + needle.len() as int) == needle
}

/// `needle` occurs somewhere in `hay`.
pub open spec fn has_match(hay: Seq<char>, needle: Seq<char>) -> bool {
    exists|i: int| match_at(hay, needle, i)
}

/// Turn a string slice into the vector of its characters.
pub fn str_to_chars(s: &str) -> (r: Vec<char>)
    ensures
        r@ == s@,
{
    let n: usize = s.unicode_len();
    let mut r: Vec<char> = Vec::new();
    let mut i: usize = 0;
    while i < n
        invariant
            n == s@.len(),
            i <= n,
            r@ == s@.subrange(0, i as int),
        decreases n - i,
    {
        let c = s.get_char(i);
        r.push(c);
        proof {
            assert(r@ =~= s@.subrange(0, i + 1));
        }
        i = i + 1;
    }
    proof {
        assert(r@ =~= s@);
    }
    r
}

/// Relies on `Iterator::collect` for `String`: collecting characters yields
/// the string made of exactly those characters in order.
#[verifier::external_body]
pub(crate) fn chars_to_string(v: &Vec<char>) -> (r: String)
    ensures
        r@ == v@,
{
    v.iter().collect()
}

/// Whether `hay` contains the character `c`.
pub fn contains_char(hay: &Vec<char>, c: char) -> (r: bool)
    ensures
        r == hay@.contains(c),
{
    let n: usize = hay.len();
    let mut i: usize = 0;
    while i < n
        invariant
            n == hay@.len(),
            i <= n,
            forall|j: int| 0 <= j < i ==> hay@[j] != c,
        decreases n - i,
    {
        if hay[i] == c {
            return true;
        }
        i = i + 1;
    }
    false
}

/// Copy of the range `[from, to)` of `v`.
pub fn subvec(v: &Vec<char>, from: usize, to: usize) -> (r: Vec<char>)
    requires
        from <= to <= v@.len(),
    ensures
        r@ == v@.subrange(from as int, to as int),
{
    let mut r: Vec<char> = Vec::new();
    let mut i: usize = from;
    while i < to
        invariant
            from <= i <= to <= v@.len(),
            r@ == v@.subrange(from as int, i as int),
        decreases to - i,
    {
        r.push(v[i]);
        proof {
            assert(r@ =~= v@.subrange(from as int, i + 1));
        }
        i = i + 1;
    }
    r
}

/// Append all of `src` to `dst`.
pub fn push_all(dst: &mut Vec<char>, src: &Vec<char>)
    ensures
        final(dst)@ == old(dst)@ + src@,
{
    let n: usize = src.len();
    let mut i: usize = 0;
    while i < n
        invariant
            n == src@.len(),
            i <= n,
            dst@ == old(dst)@ + src@.subrange(0, i as int),
        decreases n - i,
    {
        dst.push(src[i]);
        proof {
            assert(dst@ =~= old(dst)@ + src@.subrange(0, i + 1));
        }
        i = i + 1;
    }
    proof {
        assert(old(dst)@ + src@.subrange(0, n as int) =~= old(dst)@ + src@);
    }
}

/// Whether `needle` occurs in `hay` starting at `i` (executable form).
fn matches_at(hay: &Vec<char>, needle: &Vec<char>, i: usize) -> (r: bool)
    requires
        i + needle@.len() <= hay@.len(),
    ensures
        r == match_at(hay@, needle@, i as int),
{
    let m: usize = needle.len();
    let n: usize = hay.len();
    let mut k: usize = 0;
    while k < m
        invariant
            m == needle@.len(),
            n == hay@.len(),
            i + m <= n,
            k <= m,
            forall|j: int| 0 <= j < k ==> hay@[i + j] == needle@[j],
        decreases m - k,
    {
        if hay[i + k] != needle[k] {
            proof {
                assert(hay@.subrange(i as int, i + m) != needle@) by {
                    assert(hay@.subrange(i as int, i + m)[k as int] != needle@[k as int]);
                }
            }
            return false;
        }
        k = k + 1;
    }
    proof {
        assert(hay@.subrange(i as int, i + m) =~= needle@);
    }
    true
}

/// Position of the last occurrence of `needle` in `hay`, if any.
pub fn rfind(hay: &Vec<char>, needle: &Vec<char>) -> (r: Option<usize>)
    ensures
        match r {
            Some(i) => match_at(hay@, needle@, i as int) && forall|j: int|
                i < j ==> !match_at(hay@, needle@, j),
            None => !has_match(hay@, needle@),
        },
{
    let n: usize = hay.len();
    let m: usize = needle.len();
    if m > n {
        proof {
            assert(forall|i: int| !match_at(hay@, needle@, i));
        }
        return None;
    }
    let mut i: usize = n - m;
    loop
        invariant_except_break
            m == needle@.len(),
            n == hay@.len(),
            m <= n,
            i <= n - m,
            forall|j: int| i < j ==> !match_at(hay@, needle@, j),
        ensures
            !has_match(hay@, needle@),
        decreases i,
    {
        if matches_at(hay, needle, i) {
            return Some(i);
        }
        if i == 0 {
            break;
        }
        i = i - 1;
    }
    None
}

/// Whether two character vectors hold the same characters.
pub fn chars_eq(a: &Vec<char>, b: &Vec<char>) -> (r: bool)
    ensures
        r == (a@ == b@),
{
    let n: usize = a.len();
    if n != b.len() {
        return false;
    }
    let mut i: usize = 0;
    while i < n
        invariant
            n == a@.len(),
            n == b@.len(),
            i <= n,
            forall|j: int| 0 <= j < i ==> a@[j] == b@[j],
        decreases n - i,
    {
        if a[i] != b[i] {
            return false;
        }
        i = i + 1;
    }
    proof {
        assert(a@ =~= b@);
    }
    true
}

/// Whether two string slices hold the same characters.
pub fn str_eq(a: &str, b: &str) -> (r: bool)
    ensures
        r == (a@ == b@),
{
    let va = str_to_chars(a);
    let vb = str_to_chars(b);
    chars_eq(&va, &vb)
}

/// Two characters are equal up to ASCII case.
pub open spec fn char_nocase_eq(x: char, y: char) -> bool {
    ||| x == y
    ||| (65 <= x as u32 <= 90 && y as u32 == x as u32 + 32)
    ||| (97 <= x as u32 <= 122 && y as u32 == x as u32 - 32)
}

/// Two character sequences are equal up to ASCII case.
pub open spec fn nocase_eq(a: Seq<char>, b: Seq<char>) -> bool {
    a.len() == b.len() && forall|i: int| 0 <= i < a.len() ==> char_nocase_eq(a[i], b[i])
}

fn char_eq_nocase(x: char, y: char) -> (r: bool)
    ensures
        r == char_nocase_eq(x, y),
{
    let xv = x as u32;
    let yv = y as u32;
    xv == yv || (65 <= xv && xv <= 90 && yv == xv + 32) || (97 <= xv && xv <= 122 && yv + 32 == xv)
}

/// Compare two character vectors up to ASCII case.
pub fn chars_eq_nocase(a: &Vec<char>, b: &Vec<char>) -> (r: bool)
    ensures
        r == nocase_eq(a@, b@),
{
    let n: usize = a.len();
    if n != b.len() {
        return false;
    }
    let mut i: usize = 0;
    while i < n
        invariant
            n == a@.len(),
            n == b@.len(),
            i <= n,
            forall|j: int| 0 <= j < i ==> char_nocase_eq(a@[j], b@[j]),
        decreases n - i,
    {
        if !char_eq_nocase(a[i], b[i]) {
            return false;
        }
        i = i + 1;
    }
    true
}

/// Compare two string slices up to ASCII case.
pub fn str_eq_nocase(a: &str, b: &str) -> (r: bool)
    ensures
        r == nocase_eq(a@, b@),
{
    let va = str_to_chars(a);
    let vb = str_to_chars(b);
    chars_eq_nocase(&va, &vb)
}

/// The whitespace characters of the line protocol.
pub open spec fn is_space_char(c: char) -> bool {
    c == ' ' || c == '\t' || c == '\r' || c == '\n'
}

/// Number of whitespace characters at the front.
pub open spec fn leading_spaces(s: Seq<char>) -> nat
    decreases s.len(),
{
    if s.len() > 0 && is_space_char(s[0]) {
        1 + leading_spaces(s.drop_first())
    } else {
        0
    }
}

/// Number of whitespace characters at the end.
pub open spec fn trailing_spaces(s: Seq<char>) -> nat
    decreases s.len(),
{
    if s.len() > 0 && is_space_char(s.last()) {
        1 + trailing_spaces(s.drop_last())
    } else {
        0
    }
}

/// `s` without leading and trailing whitespace.
pub open spec fn spec_trim(s: Seq<char>) -> Seq<char> {
    if leading_spaces(s) == s.len() {
        Seq::empty()
    } else {
        s.subrange(leading_spaces(s) as int, s.len() - trailing_spaces(s))
    }
}

fn is_space(c: char) -> (r: bool)
    ensures
        r == is_space_char(c),
{
    c == ' ' || c == '\t' || c == '\r' || c == '\n'
}

/// Strip leading and trailing whitespace.
pub fn trim_spaces(v: &Vec<char>) -> (r: Vec<char>)
    ensures
        r@ == spec_trim(v@),
{
    let n: usize = v.len();
    let mut lo: usize = 0;
    proof {
        assert(v@.skip(0) =~= v@);
    }
    while lo < n && is_space(v[lo])
        invariant
            n == v@.len(),
            lo <= n,
            leading_spaces(v@) == lo + leading_spaces(v@.skip(lo as int)),
        decreases n - lo,
    {
        proof {
            let tail = v@.skip(lo as int);
            assert(tail[0] == v@[lo as int]);
            assert(tail.drop_first() =~= v@.skip(lo + 1));
        }
        lo = lo + 1;
    }
    proof {
        let tail = v@.skip(lo as int);
        if lo < n {
            assert(tail[0] == v@[lo as int]);
        }
        assert(leading_spaces(tail) == 0);
        assert(leading_spaces(v@) == lo);
    }
    if lo == n {
        let r: Vec<char> = Vec::new();
        proof {
            assert(r@ =~= spec_trim(v@));
        }
        return r;
    }
    let mut hi: usize = n - 1;
    proof {
        assert(v@.take(n as int) =~= v@);
    }
    while hi > lo && is_space(v[hi])
        invariant
            n == v@.len(),
            lo <= hi < n,
            leading_spaces(v@) == lo,
            lo < n,
            !is_space_char(v@[lo as int]),
            trailing_spaces(v@) == (n - 1 - hi) + trailing_spaces(v@.take(hi + 1)),
        decreases hi,
    {
        proof {
            let head = v@.take(hi + 1);
            assert(head.last() == v@[hi as int]);
            assert(head.drop_last() =~= v@.take(hi as int));
        }
        hi = hi - 1;
    }
    proof {
        let head = v@.take(hi + 1);
        assert(head.last() == v@[hi as int]);
        if hi > lo {
            assert(trailing_spaces(head) == 0);
        } else {
            assert(hi == lo);
            assert(trailing_spaces(head) == 0);
        }
        assert(trailing_spaces(v@) == n - 1 - hi);
    }
    let r = subvec(v, lo, hi + 1);
    proof {
        assert(r@ =~= spec_trim(v@));
    }
    r
}

/// The whitespace-separated words of `s`, from position `i`, with pending
/// word `cur` and words already found in `acc`.
pub open spec fn ws_tokens_from(
    s: Seq<char>,
    i: int,
    cur: Seq<char>,
    acc: Seq<Seq<char>>,
) -> Seq<Seq<char>>
    decreases s.len() - i,
{
    if i < 0 || i >= s.len() {
        if cur.len() > 0 {
            acc.push(cur)
        } else {
            acc
        }
    } else if is_space_char(s[i]) {
        ws_tokens_from(
            s,
            i + 1,
            Seq::empty(),
            if cur.len() > 0 {
                acc.push(cur)
            } else {
                acc
            },
        )
    } else {
        ws_tokens_from(s, i + 1, cur.push(s[i]), acc)
    }
}

/// The whitespace-separated words of `s`.
pub open spec fn ws_tokens(s: Seq<char>) -> Seq<Seq<char>> {
    ws_tokens_from(s, 0, Seq::empty(), Seq::empty())
}

/// The leading whitespace stops at a non-whitespace character.
pub proof fn lemma_leading_spaces_stop(s: Seq<char>)
    ensures
        leading_spaces(s) <= s.len(),
        leading_spaces(s) < s.len() ==> !is_space_char(s[leading_spaces(s) as int]),
    decreases s.len(),
{
    if s.len() > 0 && is_space_char(s[0]) {
        lemma_leading_spaces_stop(s.drop_first());
        if leading_spaces(s) < s.len() {
            assert(s.drop_first()[leading_spaces(s.drop_first()) as int] == s[leading_spaces(
                s,
            ) as int]);
        }
    }
}

/// The trailing whitespace stops before any non-whitespace position.
pub proof fn lemma_trailing_spaces_before(s: Seq<char>, k: int)
    requires
        0 <= k < s.len(),
        !is_space_char(s[k]),
    ensures
        trailing_spaces(s) <= s.len() - 1 - k,
    decreases s.len(),
{
    if s.len() > 0 && is_space_char(s.last()) {
        assert(k < s.len() - 1);
        assert(s.drop_last()[k] == s[k]);
        lemma_trailing_spaces_before(s.drop_last(), k);
    }
}

/// A trimmed line that is not empty starts with a non-whitespace character.
pub proof fn lemma_trim_starts_non_space(s: Seq<char>)
    ensures
        spec_trim(s).len() > 0 ==> !is_space_char(spec_trim(s)[0]),
{
    lemma_leading_spaces_stop(s);
    if spec_trim(s).len() > 0 {
        let lead = leading_spaces(s) as int;
        assert(lead < s.len());
        assert(!is_space_char(s[lead]));
        lemma_trailing_spaces_before(s, lead);
        assert(spec_trim(s)[0] == s[lead]);
    }
}

/// The word list never shrinks below what was already found.
pub proof fn lemma_ws_tokens_ge(s: Seq<char>, i: int, cur: Seq<char>, acc: Seq<Seq<char>>)
    ensures
        ws_tokens_from(s, i, cur, acc).len() >= acc.len() + (if cur.len() > 0 {
            1int
        } else {
            0
        }),
    decreases s.len() - i,
{
    if i < 0 || i >= s.len() {
    } else if is_space_char(s[i]) {
        lemma_ws_tokens_ge(
            s,
            i + 1,
            Seq::empty(),
            if cur.len() > 0 {
                acc.push(cur)
            } else {
                acc
            },
        );
    } else {
        lemma_ws_tokens_ge(s, i + 1, cur.push(s[i]), acc);
    }
}

/// A line with a non-whitespace character yields at least one word.
pub proof fn lemma_ws_tokens_nonempty(s: Seq<char>)
    requires
        s.len() > 0,
        !is_space_char(s[0]),
    ensures
        ws_tokens(s).len() >= 1,
{
    lemma_ws_tokens_ge(s, 1, seq![s[0]], Seq::empty());
}

/// Split `v` into its whitespace-separated words.
pub fn split_ws(v: &Vec<char>) -> (r: Vec<Vec<char>>)
    ensures
        chars_views(r@) == ws_tokens(v@),
{
    let n: usize = v.len();
    let mut acc: Vec<Vec<char>> = Vec::new();
    let mut cur: Vec<char> = Vec::new();
    let mut i: usize = 0;
    proof {
        assert(cur@ =~= Seq::<char>::empty());
        assert(chars_views(acc@) =~= Seq::<Seq<char>>::empty());
    }
    while i < n
        invariant
            n == v@.len(),
            i <= n,
            ws_tokens(v@) == ws_tokens_from(v@, i as int, cur@, chars_views(acc@)),
        decreases n - i,
    {
        if is_space(v[i]) {
            if cur.len() > 0 {
                let ghost av = chars_views(acc@);
                let mut done: Vec<char> = Vec::new();
                core::mem::swap(&mut cur, &mut done);
                let ghost dv = done@;
                acc.push(done);
                proof {
                    assert(chars_views(acc@) =~= av.push(dv));
                    assert(cur@ =~= Seq::<char>::empty());
                }
            } else {
                proof {
                    assert(cur@ =~= Seq::<char>::empty());
                }
            }
        } else {
            cur.push(v[i]);
        }
        i = i + 1;
    }
    if cur.len() > 0 {
        let ghost av = chars_views(acc@);
        let ghost cv = cur@;
        acc.push(cur);
        proof {
            assert(chars_views(acc@) =~= av.push(cv));
        }
    } else {
        proof {
            assert(cur@ =~= Seq::<char>::empty());
        }
    }
    acc
}

/// Index of the first occurrence of `c` at or after `i`, or -1.
pub open spec fn first_index_from(s: Seq<char>, c: char, i: int) -> int
    decreases s.len() - i,
{
    if i < 0 || i >= s.len() {
        -1
    } else if s[i] == c {
        i
    } else {
        first_index_from(s, c, i + 1)
    }
}

/// Index of the first occurrence of `c`, or -1.
pub open spec fn first_index_of(s: Seq<char>, c: char) -> int {
    first_index_from(s, c, 0)
}

/// Find the first occurrence of `c` in `v`.
pub fn find_char(v: &Vec<char>, c: char) -> (r: Option<usize>)
    ensures
        match r {
            Some(i) => first_index_of(v@, c) == i as int && i < v@.len(),
            None => first_index_of(v@, c) == -1,
        },
{
    let n: usize = v.len();
    let mut i: usize = 0;
    while i < n
        invariant
            n == v@.len(),
            i <= n,
            first_index_of(v@, c) == first_index_from(v@, c, i as int),
        decreases n - i,
    {
        if v[i] == c {
            return Some(i);
        }
        i = i + 1;
    }
    None
}

/// Split on a separator character from position `i`, keeping empty pieces,
/// with the pending piece `cur` and the pieces already cut in `acc`.
pub open spec fn split_from(
    s: Seq<char>,
    c: char,
    i: int,
    cur: Seq<char>,
    acc: Seq<Seq<char>>,
) -> Seq<Seq<char>>
    decreases s.len() - i,
{
    if i < 0 || i >= s.len() {
        acc.push(cur)
    } else if s[i] == c {
        split_from(s, c, i + 1, Seq::empty(), acc.push(cur))
    } else {
        split_from(s, c, i + 1, cur.push(s[i]), acc)
    }
}

/// The pieces of `s` between occurrences of `c`, empty pieces kept.
pub open spec fn split_on_char(s: Seq<char>, c: char) -> Seq<Seq<char>> {
    split_from(s, c, 0, Seq::empty(), Seq::empty())
}

/// The views of a list of character vectors.
pub open spec fn chars_views(s: Seq<Vec<char>>) -> Seq<Seq<char>> {
    s.map_values(|v: Vec<char>| v@)
}

/// Split `v` on the separator `c`, keeping empty pieces.
pub fn split_chars(v: &Vec<char>, c: char) -> (r: Vec<Vec<char>>)
    ensures
        chars_views(r@) == split_on_char(v@, c),
{
    let n: usize = v.len();
    let mut acc: Vec<Vec<char>> = Vec::new();
    let mut cur: Vec<char> = Vec::new();
    let mut i: usize = 0;
    proof {
        assert(cur@ =~= Seq::<char>::empty());
        assert(chars_views(acc@) =~= Seq::<Seq<char>>::empty());
    }
    while i < n
        invariant
            n == v@.len(),
            i <= n,
            split_on_char(v@, c) == split_from(v@, c, i as int, cur@, chars_views(acc@)),
        decreases n - i,
    {
        if v[i] == c {
            let ghost av = chars_views(acc@);
            let mut done: Vec<char> = Vec::new();
            core::mem::swap(&mut cur, &mut done);
            let ghost dv = done@;
            acc.push(done);
            proof {
                assert(chars_views(acc@) =~= av.push(dv));
                assert(cur@ =~= Seq::<char>::empty());
            }
        } else {
            cur.push(v[i]);
        }
        i = i + 1;
    }
    let ghost av = chars_views(acc@);
    let ghost cv = cur@;
    acc.push(cur);
    proof {
        assert(chars_views(acc@) =~= av.push(cv));
    }
    acc
}

} // verus!
