//! Framing of file transfers: the decimal size line of an upload, the
//! `FILE_SIZE` header of a download, and the `EXEC_UPLOAD` command line.

use vstd::prelude::*;

use vstd::arithmetic::div_mod::lemma_fundamental_div_mod;

use crate::expand::string_views;
use crate::text::{
    chars_to_string, chars_views, spec_trim, split_ws, str_to_chars, subvec, trim_spaces,
    ws_tokens,
};

verus! {

/// A decimal digit.
pub open spec fn is_dec_digit(c: char) -> bool {
    48 <= c as u32 <= 57
}

/// The digit character for a value below ten.
pub open spec fn digit_char(d: nat) -> char {
    if d == 0 {
        '0'
    } else if d == 1 {
        '1'
    } else if d == 2 {
        '2'
    } else if d == 3 {
        '3'
    } else if d == 4 {
        '4'
    } else if d == 5 {
        '5'
    } else if d == 6 {
        '6'
    } else if d == 7 {
        '7'
    } else if d == 8 {
        '8'
    } else {
        '9'
    }
}

/// The value of a digit character.
pub open spec fn digit_val(c: char) -> nat {
    (c as u32 - 48) as nat
}

/// The decimal writing of `n`, most significant digit first.
pub open spec fn dec_digits(n: nat) -> Seq<char>
    decreases n,
{
    if n < 10 {
        seq![digit_char(n)]
    } else {
        dec_digits(n / 10).push(digit_char(n % 10))
    }
}

/// Every character is a digit.
pub open spec fn all_dec_digits(s: Seq<char>) -> bool {
    forall|i: int| 0 <= i < s.len() ==> is_dec_digit(s[i])
}

/// The value of a digit string.
pub open spec fn dec_value(s: Seq<char>) -> nat
    decreases s.len(),
{
    if s.len() == 0 {
        0
    } else {
        dec_value(s.drop_last()) * 10 + digit_val(s.last())
    }
}

/// What a strict decimal number line means: a non-empty run of digits whose
/// value fits; anything else is rejected.
pub open spec fn spec_parse_u64(s: Seq<char>) -> Option<u64> {
    if s.len() > 0 && all_dec_digits(s) && dec_value(s) <= u64::MAX {
        Some(dec_value(s) as u64)
    } else {
        None
    }
}

fn digit_char_of(d: u64) -> (c: char)
    requires
        d < 10,
    ensures
        c == digit_char(d as nat),
{
    if d == 0 {
        '0'
    } else if d == 1 {
        '1'
    } else if d == 2 {
        '2'
    } else if d == 3 {
        '3'
    } else if d == 4 {
        '4'
    } else if d == 5 {
        '5'
    } else if d == 6 {
        '6'
    } else if d == 7 {
        '7'
    } else if d == 8 {
        '8'
    } else {
        '9'
    }
}

/// Append the decimal writing of `n`.
fn push_dec_digits(n: u64, out: &mut Vec<char>)
    ensures
        final(out)@ == old(out)@ + dec_digits(n as nat),
    decreases n,
{
    if n < 10 {
        out.push(digit_char_of(n));
        proof {
            assert(out@ =~= old(out)@ + dec_digits(n as nat));
        }
    } else {
        push_dec_digits(n / 10, out);
        out.push(digit_char_of(n % 10));
        proof {
            assert((n as nat) / 10 == (n / 10) as nat);
            assert((n as nat) % 10 == (n % 10) as nat);
            assert(out@ =~= old(out)@ + dec_digits(n as nat));
        }
    }
}

/// The decimal writing of `n`.
pub fn format_u64(n: u64) -> (r: String)
    ensures
        r@ == dec_digits(n as nat),
{
    let mut v: Vec<char> = Vec::new();
    push_dec_digits(n, &mut v);
    proof {
        assert(Seq::<char>::empty() + dec_digits(n as nat) =~= dec_digits(n as nat));
    }
    chars_to_string(&v)
}

/// A prefix of a digit string is worth no more than the whole.
proof fn lemma_dec_value_prefix_le(s: Seq<char>, i: int)
    requires
        all_dec_digits(s),
        0 <= i <= s.len(),
    ensures
        dec_value(s.take(i)) <= dec_value(s),
    decreases s.len() - i,
{
    if i == s.len() {
        assert(s.take(i) =~= s);
    } else {
        lemma_dec_value_prefix_le(s, i + 1);
        assert(s.take(i + 1).drop_last() =~= s.take(i));
        assert(s.take(i + 1).last() == s[i]);
        assert(dec_value(s.take(i + 1)) == dec_value(s.take(i)) * 10 + digit_val(s[i]));
        assert(dec_value(s.take(i)) * 10 >= dec_value(s.take(i))) by (nonlinear_arith);
    }
}

/// Parse a strict decimal number (character form).
fn parse_u64_chars(v: &Vec<char>) -> (r: Option<u64>)
    ensures
        r == spec_parse_u64(v@),
{
    let n: usize = v.len();
    if n == 0 {
        return None;
    }
    let mut acc: u64 = 0;
    let mut i: usize = 0;
    proof {
        assert(v@.take(0) =~= Seq::<char>::empty());
    }
    while i < n
        invariant
            n == v@.len(),
            i <= n,
            all_dec_digits(v@.take(i as int)),
            acc == dec_value(v@.take(i as int)),
        decreases n - i,
    {
        let c = v[i];
        let cv = c as u32;
        if cv < 48 || cv > 57 {
            proof {
                assert(!is_dec_digit(v@[i as int]));
            }
            return None;
        }
        let d: u64 = (cv - 48) as u64;
        if acc > (u64::MAX - d) / 10 {
            proof {
                assert(v@.take(i + 1).drop_last() =~= v@.take(i as int));
                assert(v@.take(i + 1).last() == v@[i as int]);
                assert(dec_value(v@.take(i + 1)) == acc * 10 + d);
                assert(acc * 10 + d > u64::MAX) by (nonlinear_arith)
                    requires
                        acc > (u64::MAX - d) / 10,
                        d < 10,
                        acc <= u64::MAX,
                ;
                if all_dec_digits(v@) {
                    assert(all_dec_digits(v@.take(i + 1)));
                    lemma_dec_value_prefix_le(v@, i + 1);
                    assert(dec_value(v@) > u64::MAX);
                }
            }
            return None;
        }
        proof {
            assert(acc * 10 + d <= u64::MAX) by (nonlinear_arith)
                requires
                    acc <= (u64::MAX - d) / 10,
                    d < 10,
            ;
            assert(v@.take(i + 1).drop_last() =~= v@.take(i as int));
            assert(v@.take(i + 1).last() == v@[i as int]);
            assert(digit_val(v@[i as int]) == d);
        }
        acc = acc * 10 + d;
        i = i + 1;
    }
    proof {
        assert(v@.take(n as int) =~= v@);
    }
    Some(acc)
}

/// Parse a strict decimal number.
pub fn parse_u64(s: &str) -> (r: Option<u64>)
    ensures
        r == spec_parse_u64(s@),
{
    let v = str_to_chars(s);
    parse_u64_chars(&v)
}

/// Parse the declared size of an upload: the line, stripped of surrounding
/// whitespace, must be a plain decimal number; anything else means an
/// invalid file size.
pub fn parse_file_size(line: &str) -> (r: Option<u64>)
    ensures
        r == spec_parse_u64(spec_trim(line@)),
{
    let v = str_to_chars(line);
    let t = trim_spaces(&v);
    parse_u64_chars(&t)
}

/// The decimal writing holds digits alone.
pub proof fn lemma_dec_digits_are_digits(n: nat)
    ensures
        all_dec_digits(dec_digits(n)),
        dec_digits(n).len() >= 1,
    decreases n,
{
    if n < 10 {
    } else {
        lemma_dec_digits_are_digits(n / 10);
    }
}

/// Reading the decimal writing of `n` back gives `n`.
pub proof fn lemma_dec_value_of_digits(n: nat)
    ensures
        dec_value(dec_digits(n)) == n,
    decreases n,
{
    if n < 10 {
        assert(dec_digits(n).drop_last() =~= Seq::<char>::empty());
        assert(dec_value(Seq::<char>::empty()) == 0);
        assert(dec_digits(n).last() == digit_char(n));
        assert(digit_val(digit_char(n)) == n);
    } else {
        lemma_dec_value_of_digits(n / 10);
        assert(dec_digits(n).drop_last() =~= dec_digits(n / 10));
        assert(dec_digits(n).last() == digit_char(n % 10));
        assert(digit_val(digit_char(n % 10)) == n % 10);
        assert(dec_value(dec_digits(n)) == (n / 10) * 10 + n % 10);
        lemma_fundamental_div_mod(n as int, 10);
        assert(n == 10 * (n / 10) + n % 10);
    }
}

/// A number printed as its size line is read back unchanged: the declared
/// length survives the round trip.
pub proof fn lemma_size_round_trip(n: u64)
    ensures
        spec_parse_u64(dec_digits(n as nat)) == Some(n),
{
    lemma_dec_digits_are_digits(n as nat);
    lemma_dec_value_of_digits(n as nat);
}

/// The decimal writing of an integer, with a sign when negative.
pub open spec fn signed_dec_digits(n: int) -> Seq<char> {
    if n < 0 {
        seq!['-'] + dec_digits((-n) as nat)
    } else {
        dec_digits(n as nat)
    }
}

/// The decimal writing of a signed number.
pub fn format_i64(n: i64) -> (r: String)
    ensures
        r@ == signed_dec_digits(n as int),
{
    if n < 0 {
        let m: u64 = (-(n as i128)) as u64;
        let mut v: Vec<char> = Vec::new();
        v.push('-');
        push_dec_digits(m, &mut v);
        proof {
            assert(seq!['-'] + dec_digits(m as nat) =~= signed_dec_digits(n as int));
        }
        chars_to_string(&v)
    } else {
        format_u64(n as u64)
    }
}

/// The header sent before a download's raw bytes.
pub open spec fn download_header(n: nat) -> Seq<char> {
    "FILE_SIZE "@ + dec_digits(n) + "\n"@
}

/// Write the download header for a file of `n` bytes.
pub fn format_download_header(n: u64) -> (r: String)
    ensures
        r@ == download_header(n as nat),
{
    let mut s = String::from_str("FILE_SIZE ");
    let digits = format_u64(n);
    s.append(digits.as_str());
    s.append("\n");
    proof {
        assert(s@ =~= download_header(n as nat));
    }
    s
}

/// What a download header line means: the `FILE_SIZE ` prefix followed by
/// the declared size.
pub open spec fn spec_parse_download_header(s: Seq<char>) -> Option<u64> {
    if s.len() >= 10 && s.take(10) == "FILE_SIZE "@ {
        spec_parse_u64(spec_trim(s.skip(10)))
    } else {
        None
    }
}

/// Parse a download header line.
pub fn parse_download_header(line: &str) -> (r: Option<u64>)
    ensures
        r == spec_parse_download_header(line@),
{
    let v = str_to_chars(line);
    let tag = str_to_chars("FILE_SIZE ");
    proof {
        reveal_strlit("FILE_SIZE ");
    }
    if v.len() < 10 {
        return None;
    }
    let head = subvec(&v, 0, 10);
    if !crate::text::chars_eq(&head, &tag) {
        proof {
            assert(v@.take(10) != "FILE_SIZE "@);
        }
        return None;
    }
    let rest = subvec(&v, 10, v.len());
    let t = trim_spaces(&rest);
    proof {
        assert(rest@ =~= line@.skip(10));
        assert(v@.take(10) =~= line@.take(10));
    }
    parse_u64_chars(&t)
}

/// Digit characters are not whitespace.
proof fn lemma_digits_not_space(s: Seq<char>)
    requires
        all_dec_digits(s),
    ensures
        s.len() > 0 ==> !crate::text::is_space_char(s[0]),
        s.len() > 0 ==> !crate::text::is_space_char(s.last()),
        crate::text::leading_spaces(s) == 0,
        crate::text::trailing_spaces(s) == 0,
{
    if s.len() > 0 {
        assert(is_dec_digit(s[0]));
        assert(is_dec_digit(s.last()));
    }
}

/// A download header written for `n` bytes is read back as `n`: the
/// declared length survives the round trip.
pub proof fn lemma_download_header_round_trip(n: u64)
    ensures
        spec_parse_download_header(download_header(n as nat)) == Some(n),
{
    reveal_strlit("FILE_SIZE ");
    reveal_strlit("\n");
    let h = download_header(n as nat);
    lemma_dec_digits_are_digits(n as nat);
    let d = dec_digits(n as nat);
    assert(h.len() == 10 + d.len() + 1);
    assert(h.take(10) =~= "FILE_SIZE "@);
    assert(h.skip(10) =~= d + "\n"@);
    let tail = d + "\n"@;
    assert(tail.last() == '\n');
    assert(tail.drop_last() =~= d);
    lemma_digits_not_space(d);
    assert(crate::text::trailing_spaces(tail) == 1);
    assert(tail[0] == d[0]);
    assert(crate::text::leading_spaces(tail) == 0);
    assert(spec_trim(tail) =~= d);
    lemma_size_round_trip(n);
}

/// A client-initiated remote execution request: program name, declared
/// size of the binary, and its arguments.
pub struct ExecUploadRequest {
    pub name: String,
    pub size: u64,
    pub args: Vec<String>,
}

/// What an `EXEC_UPLOAD` line means: the tag, a program name, a size that
/// parses, then the arguments.
pub open spec fn spec_parse_exec_upload(s: Seq<char>) -> Option<(Seq<char>, u64, Seq<Seq<char>>)> {
    let ts = ws_tokens(s);
    if ts.len() >= 3 && ts[0] == "EXEC_UPLOAD"@ && spec_parse_u64(ts[2]) is Some {
        Some((ts[1], spec_parse_u64(ts[2])->0, ts.skip(3)))
    } else {
        None
    }
}

/// Parse an `EXEC_UPLOAD` command line.
pub fn parse_exec_upload(line: &str) -> (r: Option<ExecUploadRequest>)
    ensures
        match r {
            Some(req) => spec_parse_exec_upload(line@) == Some(
                (req.name@, req.size, string_views(req.args@)),
            ),
            None => spec_parse_exec_upload(line@) is None,
        },
{
    let v = str_to_chars(line);
    let parts = split_ws(&v);
    if parts.len() < 3 {
        return None;
    }
    let tag = str_to_chars("EXEC_UPLOAD");
    if !crate::text::chars_eq(&parts[0], &tag) {
        proof {
            assert(chars_views(parts@)[0] == parts@[0]@);
        }
        return None;
    }
    let size = match parse_u64_chars(&parts[2]) {
        Some(s) => s,
        None => {
            proof {
                assert(chars_views(parts@)[2] == parts@[2]@);
            }
            return None;
        },
    };
    let name = chars_to_string(&parts[1]);
    let m: usize = parts.len();
    let mut args: Vec<String> = Vec::new();
    let mut k: usize = 3;
    proof {
        assert(string_views(args@) =~= chars_views(parts@).skip(3).take(0));
    }
    while k < m
        invariant
            m == parts@.len(),
            3 <= k <= m,
            string_views(args@) == chars_views(parts@).skip(3).take(k - 3),
        decreases m - k,
    {
        let a = chars_to_string(&parts[k]);
        let ghost before = string_views(args@);
        args.push(a);
        proof {
            assert(chars_views(parts@)[k as int] == parts@[k as int]@);
            assert(string_views(args@) =~= before.push(parts@[k as int]@));
            assert(chars_views(parts@).skip(3).take(k + 1 - 3) =~= before.push(
                chars_views(parts@)[k as int],
            ));
        }
        k = k + 1;
    }
    proof {
        assert(chars_views(parts@).skip(3).take(m - 3) =~= chars_views(parts@).skip(3));
        assert(chars_views(parts@)[0] == parts@[0]@);
        assert(chars_views(parts@)[1] == parts@[1]@);
        assert(chars_views(parts@)[2] == parts@[2]@);
    }
    Some(ExecUploadRequest { name, size, args })
}

} // verus!
