//! Decimal and base-36 rendering of integers, and the ASCII-to-`String`
//! conversion they rely on.

use vstd::prelude::*;
use vstd::string::StrSliceExecFns;
use vstd::string::StringExecFns;

verus! {

/// ASCII byte of a decimal digit.
pub open spec fn dec_digit(d: nat) -> u8
    recommends
        d < 10,
{
    (0x30 + d) as u8
}

/// ASCII bytes of `n` in decimal, most significant digit first.
pub open spec fn dec_bytes(n: nat) -> Seq<u8>
    decreases n,
{
    if n < 10 {
        seq![dec_digit(n)]
    } else {
        dec_bytes(n / 10).push(dec_digit(n % 10))
    }
}

/// Characters of `n` in decimal.
pub open spec fn dec_str(n: nat) -> Seq<char> {
    dec_bytes(n).map_values(|b: u8| b as char)
}

/// Characters of a signed value in decimal: a leading minus sign when
/// negative, then the magnitude.
pub open spec fn dec_str_i64(n: i64) -> Seq<char> {
    if n < 0 {
        seq!['-'] + dec_str((-(n as int)) as nat)
    } else {
        dec_str(n as nat)
    }
}

/// ASCII byte of a base-36 digit: `0`-`9` then `a`-`z`.
pub open spec fn base36_digit(d: nat) -> u8
    recommends
        d < 36,
{
    if d < 10 {
        (0x30 + d) as u8
    } else {
        (0x61 + (d - 10)) as u8
    }
}

/// ASCII bytes of `n` in base 36, most significant digit first.
pub open spec fn base36_bytes(n: nat) -> Seq<u8>
    decreases n,
{
    if n < 36 {
        seq![base36_digit(n)]
    } else {
        base36_bytes(n / 36).push(base36_digit(n % 36))
    }
}

/// Characters of `n` in base 36.
pub open spec fn base36_str(n: nat) -> Seq<char> {
    base36_bytes(n).map_values(|b: u8| b as char)
}

pub open spec fn is_ascii_byte(b: u8) -> bool {
    b < 128
}

/// The lowercase form of a character sequence, as Unicode case folding
/// defines it: a function of the characters alone.
pub uninterp spec fn lower_of(s: Seq<char>) -> Seq<char>;

/// Relies on `str::to_lowercase`: the result depends on the characters alone,
/// and an empty string stays empty.
#[verifier::external_body]
pub fn to_lowercase(s: &str) -> (r: String)
    ensures
        r@ == lower_of(s@),
        s@.len() == 0 ==> r@.len() == 0,
{
    s.to_lowercase()
}

/// Relies on `i64::unsigned_abs`: the absolute value, computed without any
/// possibility of overflow or panic.
pub assume_specification[ i64::unsigned_abs ](x: i64) -> (r: u64)
    ensures
        r as int == if x < 0 {
            -(x as int)
        } else {
            x as int
        },
;

/// Relies on `String::from_utf8`: ASCII bytes are valid UTF-8 and convert to
/// the characters of equal code.
#[verifier::external_body]
pub fn ascii_to_string(bytes: &Vec<u8>) -> (r: String)
    requires
        forall|i: int| 0 <= i < bytes@.len() ==> is_ascii_byte(#[trigger] bytes@[i]),
    ensures
        r@.len() == bytes@.len(),
        forall|i: int| 0 <= i < bytes@.len() ==> r@[i] == bytes@[i] as char,
{
    String::from_utf8(bytes.clone()).unwrap()
}

proof fn lemma_dec_bytes_ascii(n: nat)
    ensures
        forall|i: int| 0 <= i < dec_bytes(n).len() ==> is_ascii_byte(#[trigger] dec_bytes(n)[i]),
    decreases n,
{
    if n < 10 {
        assert(dec_bytes(n) =~= seq![dec_digit(n)]);
    } else {
        lemma_dec_bytes_ascii(n / 10);
        assert forall|i: int| 0 <= i < dec_bytes(n).len() implies is_ascii_byte(
            #[trigger] dec_bytes(n)[i],
        ) by {
            if i < dec_bytes(n / 10).len() {
                assert(dec_bytes(n)[i] == dec_bytes(n / 10)[i]);
            } else {
                assert(dec_bytes(n)[i] == dec_digit(n % 10));
            }
        }
    }
}

proof fn lemma_base36_bytes_ascii(n: nat)
    ensures
        forall|i: int| 0 <= i < base36_bytes(n).len() ==> is_ascii_byte(
            #[trigger] base36_bytes(n)[i],
        ),
    decreases n,
{
    if n < 36 {
        assert(base36_bytes(n) =~= seq![base36_digit(n)]);
    } else {
        lemma_base36_bytes_ascii(n / 36);
        assert forall|i: int| 0 <= i < base36_bytes(n).len() implies is_ascii_byte(
            #[trigger] base36_bytes(n)[i],
        ) by {
            if i < base36_bytes(n / 36).len() {
                assert(base36_bytes(n)[i] == base36_bytes(n / 36)[i]);
            } else {
                assert(base36_bytes(n)[i] == base36_digit(n % 36));
            }
        }
    }
}

fn dec_bytes_exec(n: u64) -> (r: Vec<u8>)
    ensures
        r@ == dec_bytes(n as nat),
    decreases n,
{
    if n < 10 {
        let mut v: Vec<u8> = Vec::new();
        v.push(0x30 + (n as u8));
        assert(v@ =~= dec_bytes(n as nat));
        v
    } else {
        let mut v = dec_bytes_exec(n / 10);
        v.push(0x30 + ((n % 10) as u8));
        assert(v@ =~= dec_bytes(n as nat));
        v
    }
}

/// Decimal rendering of an unsigned value.
pub fn u64_to_dec(n: u64) -> (r: String)
    ensures
        r@ == dec_str(n as nat),
{
    let bytes = dec_bytes_exec(n);
    proof {
        lemma_dec_bytes_ascii(n as nat);
    }
    let s = ascii_to_string(&bytes);
    assert(s@ =~= dec_str(n as nat));
    s
}

/// Decimal rendering of a signed value.
pub fn i64_to_dec(n: i64) -> (r: String)
    ensures
        r@ == dec_str_i64(n),
{
    if n < 0 {
        let mut s = String::from_str("-");
        let mag = u64_to_dec(n.unsigned_abs());
        proof {
            reveal_strlit("-");
        }
        s.append(mag.as_str());
        assert(s@ =~= dec_str_i64(n));
        s
    } else {
        let s = u64_to_dec(n as u64);
        s
    }
}

fn base36_bytes_exec(n: u32) -> (r: Vec<u8>)
    ensures
        r@ == base36_bytes(n as nat),
    decreases n,
{
    if n < 36 {
        let mut v: Vec<u8> = Vec::new();
        let d = n as u8;
        if d < 10 {
            v.push(0x30 + d);
        } else {
            v.push(0x61 + (d - 10));
        }
        assert(v@ =~= base36_bytes(n as nat));
        v
    } else {
        let mut v = base36_bytes_exec(n / 36);
        let d = (n % 36) as u8;
        if d < 10 {
            v.push(0x30 + d);
        } else {
            v.push(0x61 + (d - 10));
        }
        assert(v@ =~= base36_bytes(n as nat));
        v
    }
}

/// Lexicographic order on character sequences: the order of code points,
/// with a proper prefix before its extensions.
pub open spec fn lex_le(a: Seq<char>, b: Seq<char>) -> bool
    decreases a.len(),
{
    if a.len() == 0 {
        true
    } else if b.len() == 0 {
        false
    } else if a[0] < b[0] {
        true
    } else if a[0] > b[0] {
        false
    } else {
        lex_le(a.skip(1), b.skip(1))
    }
}

/// Any two sequences are ordered one way or the other.
pub proof fn lemma_lex_le_total(a: Seq<char>, b: Seq<char>)
    ensures
        lex_le(a, b) || lex_le(b, a),
    decreases a.len(),
{
    if a.len() > 0 && b.len() > 0 && a[0] == b[0] {
        lemma_lex_le_total(a.skip(1), b.skip(1));
    }
}

/// Lexicographic order is transitive.
pub proof fn lemma_lex_le_trans(a: Seq<char>, b: Seq<char>, c: Seq<char>)
    requires
        lex_le(a, b),
        lex_le(b, c),
    ensures
        lex_le(a, c),
    decreases a.len(),
{
    if a.len() > 0 && b.len() > 0 && c.len() > 0 && a[0] == b[0] && b[0] == c[0] {
        lemma_lex_le_trans(a.skip(1), b.skip(1), c.skip(1));
    }
}

/// Both directions of the order hold only of equal sequences.
pub proof fn lemma_lex_le_antisym(a: Seq<char>, b: Seq<char>)
    requires
        lex_le(a, b),
        lex_le(b, a),
    ensures
        a == b,
    decreases a.len(),
{
    if a.len() == 0 {
        assert(b.len() == 0);
        assert(a =~= b);
    } else {
        assert(b.len() > 0);
        assert(a[0] == b[0]);
        lemma_lex_le_antisym(a.skip(1), b.skip(1));
        assert(a.skip(1).len() == a.len() - 1);
        assert(b.skip(1).len() == b.len() - 1);
        assert(a.len() == b.len());
        assert forall|i: int| 0 <= i < a.len() implies a[i] == b[i] by {
            if i > 0 {
                assert(a[i] == a.skip(1)[i - 1]);
                assert(b[i] == b.skip(1)[i - 1]);
            }
        }
        assert(a =~= b);
    }
}

/// Compare two strings lexicographically.
pub fn str_le(a: &str, b: &str) -> (r: bool)
    ensures
        r == lex_le(a@, b@),
{
    let alen = a.unicode_len();
    let blen = b.unicode_len();
    let mut i: usize = 0;
    proof {
        assert(a@.skip(0) =~= a@);
        assert(b@.skip(0) =~= b@);
    }
    loop
        invariant
            i <= alen,
            i <= blen,
            alen == a@.len(),
            blen == b@.len(),
            lex_le(a@, b@) == lex_le(a@.skip(i as int), b@.skip(i as int)),
        decreases alen - i,
    {
        if i >= alen {
            proof {
                assert(a@.skip(i as int).len() == 0);
            }
            return true;
        }
        if i >= blen {
            proof {
                assert(b@.skip(i as int).len() == 0);
                assert(a@.skip(i as int).len() > 0);
            }
            return false;
        }
        let ca = a.get_char(i);
        let cb = b.get_char(i);
        proof {
            assert(a@.skip(i as int)[0] == a@[i as int]);
            assert(b@.skip(i as int)[0] == b@[i as int]);
            assert(a@.skip(i as int).skip(1) =~= a@.skip(i as int + 1));
            assert(b@.skip(i as int).skip(1) =~= b@.skip(i as int + 1));
        }
        if ca < cb {
            return true;
        }
        if ca > cb {
            return false;
        }
        i = i + 1;
    }
}

/// Whether `s` ends with `suffix`.
pub open spec fn ends_with_spec(s: Seq<char>, suffix: Seq<char>) -> bool {
    s.len() >= suffix.len() && s.subrange(s.len() - suffix.len(), s.len() as int) == suffix
}

/// Test a suffix of a string.
pub fn str_ends_with(s: &str, suffix: &str) -> (r: bool)
    ensures
        r == ends_with_spec(s@, suffix@),
{
    let slen = s.unicode_len();
    let xlen = suffix.unicode_len();
    if slen < xlen {
        return false;
    }
    let offset = slen - xlen;
    let mut i: usize = 0;
    while i < xlen
        invariant
            i <= xlen,
            xlen <= slen,
            offset == slen - xlen,
            slen == s@.len(),
            xlen == suffix@.len(),
            forall|j: int| 0 <= j < i ==> s@[offset + j] == suffix@[j],
        decreases xlen - i,
    {
        let cs = s.get_char(offset + i);
        let cx = suffix.get_char(i);
        if cs != cx {
            proof {
                assert(s@.subrange(offset as int, slen as int)[i as int] == s@[offset + i]);
            }
            return false;
        }
        i = i + 1;
    }
    proof {
        assert(s@.subrange(offset as int, slen as int) =~= suffix@);
    }
    true
}

/// Whether `s` starts with `prefix`.
pub open spec fn starts_with_spec(s: Seq<char>, prefix: Seq<char>) -> bool {
    s.len() >= prefix.len() && s.subrange(0, prefix.len() as int) == prefix
}

/// Test a prefix of a string.
pub fn str_starts_with(s: &str, prefix: &str) -> (r: bool)
    ensures
        r == starts_with_spec(s@, prefix@),
{
    let slen = s.unicode_len();
    let xlen = prefix.unicode_len();
    if slen < xlen {
        return false;
    }
    let mut i: usize = 0;
    while i < xlen
        invariant
            i <= xlen,
            xlen <= slen,
            slen == s@.len(),
            xlen == prefix@.len(),
            forall|j: int| 0 <= j < i ==> s@[j] == prefix@[j],
        decreases xlen - i,
    {
        let cs = s.get_char(i);
        let cx = prefix.get_char(i);
        if cs != cx {
            proof {
                assert(s@.subrange(0, xlen as int)[i as int] == s@[i as int]);
            }
            return false;
        }
        i = i + 1;
    }
    proof {
        assert(s@.subrange(0, xlen as int) =~= prefix@);
    }
    true
}

/// Views of a list of strings.
pub open spec fn views_of(v: Seq<String>) -> Seq<Seq<char>> {
    v.map_values(|s: String| s@)
}

/// Whether some string of the list reads `s`.
pub open spec fn str_in(list: Seq<String>, s: Seq<char>) -> bool {
    exists|i: int| 0 <= i < list.len() && list[i]@ == s
}

/// Membership of a string in a list, by characters.
pub fn str_list_contains(list: &Vec<String>, s: &String) -> (r: bool)
    ensures
        r == str_in(list@, s@),
{
    let n = list.len();
    let mut i: usize = 0;
    while i < n
        invariant
            i <= n,
            n == list@.len(),
            forall|j: int| 0 <= j < i ==> list@[j]@ != s@,
        decreases n - i,
    {
        if list[i] == *s {
            return true;
        }
        i = i + 1;
    }
    false
}

/// Base-36 rendering of `num`, digits `0`-`9` then `a`-`z`, matching the
/// `toString(36)` convention of scripting hosts.
pub fn base36_encode(num: u32) -> (r: String)
    ensures
        r@ == base36_str(num as nat),
{
    let bytes = base36_bytes_exec(num);
    proof {
        lemma_base36_bytes_ascii(num as nat);
    }
    let s = ascii_to_string(&bytes);
    assert(s@ =~= base36_str(num as nat));
    s
}

} // verus!
