//! Hashing, clock and byte-encoding helpers shared by the rest of the crate.

use vstd::prelude::*;
use sha2::Digest;
use vstd::arithmetic::power::pow;

use crate::proof_of_work::be_value;

verus! {

/// The SHA-256 digest of a byte string.
pub uninterp spec fn sha256(data: Seq<u8>) -> Seq<u8>;

/// Calls `sha2::Sha256::digest`.
/// Trusted: the result is the digest named `sha256` of the input, and it is
/// 32 bytes long (the output type of `Sha256` is an array of 32 bytes).
#[verifier::external_body]
pub(crate) fn sha256_digest(data: &[u8]) -> (res: Vec<u8>)
    ensures
        res@ == sha256(data@),
        res@.len() == 32,
{
    sha2::Sha256::digest(data).to_vec()
}

/// The system clock's time type, `std::time::SystemTime`.
#[verifier::external_type_specification]
#[verifier::external_body]
pub struct ExSystemTime(std::time::SystemTime);

/// The error of `SystemTime::duration_since`, `std::time::SystemTimeError`.
#[verifier::external_type_specification]
#[verifier::external_body]
pub struct ExSystemTimeError(std::time::SystemTimeError);

/// Calls `std::time::SystemTime::now`.
/// Trusted: nothing is promised of the value, which is the time.
#[verifier::external_body]
fn system_time_now() -> (res: std::time::SystemTime) {
    std::time::SystemTime::now()
}

/// Calls `SystemTime::duration_since` with `std::time::UNIX_EPOCH`.
/// Trusted: nothing is promised of the value, which depends on the time; it
/// is an error when `t` is earlier than the epoch.
#[verifier::external_body]
fn duration_since_unix_epoch(t: &std::time::SystemTime) -> (res: Result<
    std::time::Duration,
    std::time::SystemTimeError,
>) {
    t.duration_since(std::time::UNIX_EPOCH)
}

/// Calls `Duration::as_nanos`.
/// Trusted: nothing is promised of the value; a `Duration` is opaque here and
/// only ever holds a clock reading.
#[verifier::external_body]
fn duration_as_nanos(d: &std::time::Duration) -> (res: u128) {
    d.as_nanos()
}

/// Reads the system clock: `Some` of the nanoseconds since the UNIX epoch,
/// or `None` when the clock stands before the epoch.
fn clock_reading() -> (res: Option<u128>) {
    let now = system_time_now();
    match duration_since_unix_epoch(&now) {
        Ok(d) => Some(duration_as_nanos(&d)),
        Err(_) => None,
    }
}

/// The current time in seconds since the UNIX epoch.
pub fn current_timestamp() -> (res: i64)
    ensures
        res >= 0,
{
    timestamp_secs(clock_reading())
}

/// The current time in nanoseconds since the UNIX epoch, saturated at
/// `i64::MAX` (which the clock reaches in the year 2262).
pub fn current_timestamp_nanos() -> (res: i64)
    ensures
        res >= 0,
{
    timestamp_nanos(clock_reading())
}

/// `v` as an `i64`, saturated at `i64::MAX`.
pub open spec fn saturate_i64(v: int) -> i64 {
    if v > i64::MAX {
        i64::MAX
    } else {
        v as i64
    }
}

/// The timestamp in seconds for a clock reading in nanoseconds: whole
/// seconds, saturated at `i64::MAX`; 0 when the clock stands before the epoch.
pub fn timestamp_secs(reading: Option<u128>) -> (res: i64)
    ensures
        res == match reading {
            Some(nanos) => saturate_i64(nanos as int / 1_000_000_000),
            None => 0,
        },
{
    match reading {
        Some(nanos) => {
            let secs = nanos / 1_000_000_000;
            if secs > i64::MAX as u128 {
                i64::MAX
            } else {
                secs as i64
            }
        },
        None => 0,
    }
}

/// The timestamp in nanoseconds for a clock reading: the reading saturated
/// at `i64::MAX`; 0 when the clock stands before the epoch.
pub fn timestamp_nanos(reading: Option<u128>) -> (res: i64)
    ensures
        res == match reading {
            Some(nanos) => saturate_i64(nanos as int),
            None => 0,
        },
{
    match reading {
        Some(nanos) => {
            if nanos > i64::MAX as u128 {
                i64::MAX
            } else {
                nanos as i64
            }
        },
        None => 0,
    }
}

/// The lower-case hexadecimal digit of a value below 16.
pub open spec fn hex_digit(v: int) -> char {
    if v < 10 {
        (v + 48) as char
    } else {
        (v - 10 + 97) as char
    }
}

/// Lower-case hexadecimal encoding: two digits per byte, high nibble first.
pub open spec fn hex_lower(data: Seq<u8>) -> Seq<char>
    decreases data.len(),
{
    if data.len() == 0 {
        Seq::empty()
    } else {
        hex_lower(data.drop_last()) + seq![hex_digit((data.last() / 16) as int), hex_digit((data.last() % 16) as int)]
    }
}

/// Hexadecimal encoding doubles the length.
pub proof fn lemma_hex_lower_len(data: Seq<u8>)
    ensures
        hex_lower(data).len() == 2 * data.len(),
    decreases data.len(),
{
    if data.len() > 0 {
        lemma_hex_lower_len(data.drop_last());
    }
}

/// Each byte becomes two lower-case hexadecimal digits at twice its
/// position: the high nibble first, then the low nibble.
pub proof fn lemma_hex_lower_digits(data: Seq<u8>, k: int)
    requires
        0 <= k < data.len(),
    ensures
        hex_lower(data).len() == 2 * data.len(),
        hex_lower(data)[2 * k] == hex_digit((data[k] / 16) as int),
        hex_lower(data)[2 * k + 1] == hex_digit((data[k] % 16) as int),
    decreases data.len(),
{
    lemma_hex_lower_len(data);
    lemma_hex_lower_len(data.drop_last());
    if k < data.len() - 1 {
        lemma_hex_lower_digits(data.drop_last(), k);
        assert(data.drop_last()[k] == data[k]);
    }
}

/// The hexadecimal digit of a value below 16 is `0`-`9` or `a`-`f`, and
/// distinct values have distinct digits.
pub proof fn lemma_hex_digit(v: int, w: int)
    requires
        0 <= v < 16,
        0 <= w < 16,
    ensures
        ('0' <= hex_digit(v) <= '9') || ('a' <= hex_digit(v) <= 'f'),
        v < 10 ==> hex_digit(v) as int == '0' as int + v,
        v >= 10 ==> hex_digit(v) as int == 'a' as int + v - 10,
        v != w ==> hex_digit(v) != hex_digit(w),
{
}

/// Calls `data_encoding::HEXLOWER.encode`.
/// Trusted: the result is the lower-case hexadecimal encoding of the input.
/// The crate asserts that the input is at most `usize::MAX / 512` bytes long.
#[verifier::external_body]
pub(crate) fn encode_hex_lower(data: &[u8]) -> (res: String)
    requires
        data@.len() <= usize::MAX / 512,
    ensures
        res@ == hex_lower(data@),
{
    data_encoding::HEXLOWER.encode(data)
}

/// The `len` least significant base-256 digits of `v`, most significant first.
pub open spec fn be_bytes(v: nat, len: nat) -> Seq<u8>
    decreases len,
{
    if len == 0 {
        Seq::empty()
    } else {
        be_bytes(v / 256, (len - 1) as nat).push((v % 256) as u8)
    }
}

/// `be_bytes` gives exactly `len` bytes.
pub proof fn lemma_be_bytes_len(v: nat, len: nat)
    ensures
        be_bytes(v, len).len() == len,
    decreases len,
{
    if len > 0 {
        lemma_be_bytes_len(v / 256, (len - 1) as nat);
    }
}

/// Distinct numbers below `256^len` have distinct `len`-byte encodings.
pub proof fn lemma_be_bytes_injective(a: nat, b: nat, len: nat)
    requires
        a < pow(256, len),
        b < pow(256, len),
        be_bytes(a, len) == be_bytes(b, len),
    ensures
        a == b,
    decreases len,
{
    reveal(pow);
    if len == 0 {
        assert(pow(256, 0) == 1);
    } else {
        let ea = be_bytes(a, len);
        let eb = be_bytes(b, len);
        assert(ea.drop_last() == be_bytes(a / 256, (len - 1) as nat));
        assert(eb.drop_last() == be_bytes(b / 256, (len - 1) as nat));
        assert(ea.last() == (a % 256) as u8);
        assert(eb.last() == (b % 256) as u8);
        assert(a % 256 == b % 256);
        let p = pow(256, (len - 1) as nat);
        assert(pow(256, len) == 256 * p);
        assert(a / 256 < p) by (nonlinear_arith)
            requires
                a < 256 * p,
                p >= 1,
        ;
        assert(b / 256 < p) by (nonlinear_arith)
            requires
                b < 256 * p,
                p >= 1,
        ;
        lemma_be_bytes_injective(a / 256, b / 256, (len - 1) as nat);
        assert(a == 256 * (a / 256) + a % 256) by (nonlinear_arith);
        assert(b == 256 * (b / 256) + b % 256) by (nonlinear_arith);
    }
}

/// Reading the `len`-byte big-endian encoding of a number below `256^len`
/// gives the number back.
pub proof fn lemma_be_bytes_value(v: nat, len: nat)
    requires
        v < pow(256, len),
    ensures
        be_bytes(v, len).len() == len,
        be_value(be_bytes(v, len)) == v,
    decreases len,
{
    reveal(pow);
    lemma_be_bytes_len(v, len);
    if len > 0 {
        let p = pow(256, (len - 1) as nat);
        assert(v / 256 < p) by (nonlinear_arith)
            requires
                v < 256 * p,
                p >= 1,
        ;
        lemma_be_bytes_value(v / 256, (len - 1) as nat);
        let e = be_bytes(v, len);
        assert(e.drop_last() == be_bytes(v / 256, (len - 1) as nat));
        assert(e.last() == (v % 256) as u8);
        assert(v == 256 * (v / 256) + v % 256) by (nonlinear_arith);
    }
}

/// Calls `i64::to_be_bytes`.
/// Trusted: the result is the two's complement of `x` in big-endian order.
#[verifier::external_body]
pub(crate) fn i64_to_be_bytes(x: i64) -> (res: [u8; 8])
    ensures
        res@ == be_bytes(x as u64 as nat, 8),
{
    x.to_be_bytes()
}

/// Calls `i32::to_be_bytes`.
/// Trusted: the result is the two's complement of `x` in big-endian order.
#[verifier::external_body]
pub(crate) fn i32_to_be_bytes(x: i32) -> (res: [u8; 4])
    ensures
        res@ == be_bytes(x as u32 as nat, 4),
{
    x.to_be_bytes()
}

/// Whether `p` is a prefix of `s`.
pub open spec fn has_prefix(s: Seq<char>, p: Seq<char>) -> bool {
    p.len() <= s.len() && s.subrange(0, p.len() as int) == p
}

/// Calls `str::starts_with` with a string pattern.
/// Trusted: the result is whether `prefix` is a prefix of `s`.
#[verifier::external_body]
pub(crate) fn str_starts_with(s: &str, prefix: &str) -> (res: bool)
    ensures
        res == has_prefix(s@, prefix@),
{
    s.starts_with(prefix)
}

/// Calls `str::strip_prefix` with a string pattern.
/// Trusted: `Some` of the rest of `s` exactly when `prefix` is a prefix of `s`.
#[verifier::external_body]
pub(crate) fn str_strip_prefix<'a>(s: &'a str, prefix: &str) -> (res: Option<&'a str>)
    ensures
        match res {
            Some(rest) => has_prefix(s@, prefix@) && rest@ == s@.skip(prefix@.len() as int),
            None => !has_prefix(s@, prefix@),
        },
{
    s.strip_prefix(prefix)
}

/// Whether a character has the Unicode White_Space property, the set that
/// `char::is_whitespace` tests: U+0009 to U+000D, U+0020, U+0085, U+00A0,
/// U+1680, U+2000 to U+200A, U+2028, U+2029, U+202F, U+205F and U+3000.
pub open spec fn is_whitespace(c: char) -> bool {
    let v = c as u32;
    ||| 0x09 <= v <= 0x0d
    ||| v == 0x20
    ||| v == 0x85
    ||| v == 0xa0
    ||| v == 0x1680
    ||| 0x2000 <= v <= 0x200a
    ||| v == 0x2028
    ||| v == 0x2029
    ||| v == 0x202f
    ||| v == 0x205f
    ||| v == 0x3000
}

/// `s` without its leading and trailing white space.
pub open spec fn trim_chars(s: Seq<char>) -> Seq<char>
    decreases s.len(),
{
    if s.len() == 0 {
        s
    } else if is_whitespace(s[0]) {
        trim_chars(s.drop_first())
    } else if is_whitespace(s.last()) {
        trim_chars(s.drop_last())
    } else {
        s
    }
}

/// Trimming keeps a contiguous run `s[i..j]` of `s`: everything before
/// `i` and from `j` on is white space, and the run neither starts nor ends
/// with white space. Returns `(i, j)`.
pub proof fn lemma_trim_chars(s: Seq<char>) -> (r: (int, int))
    ensures
        0 <= r.0 <= r.1 <= s.len(),
        trim_chars(s) == s.subrange(r.0, r.1),
        forall|k: int| 0 <= k < r.0 ==> is_whitespace(#[trigger] s[k]),
        forall|k: int| r.1 <= k < s.len() ==> is_whitespace(#[trigger] s[k]),
        r.0 < r.1 ==> !is_whitespace(s[r.0]) && !is_whitespace(s[r.1 - 1]),
    decreases s.len(),
{
    if s.len() == 0 {
        assert(s.subrange(0, 0) =~= s);
        (0, 0)
    } else if is_whitespace(s[0]) {
        let t = s.drop_first();
        let (i, j) = lemma_trim_chars(t);
        assert(t.subrange(i, j) =~= s.subrange(i + 1, j + 1));
        assert forall|k: int| 0 <= k < i + 1 implies is_whitespace(#[trigger] s[k]) by {
            if k > 0 {
                assert(s[k] == t[k - 1]);
            }
        }
        assert forall|k: int| j + 1 <= k < s.len() implies is_whitespace(#[trigger] s[k]) by {
            assert(s[k] == t[k - 1]);
        }
        if i < j {
            assert(s[i + 1] == t[i]);
            assert(s[j] == t[j - 1]);
        }
        (i + 1, j + 1)
    } else if is_whitespace(s.last()) {
        let t = s.drop_last();
        let (i, j) = lemma_trim_chars(t);
        assert(t.subrange(i, j) =~= s.subrange(i, j));
        assert forall|k: int| 0 <= k < i implies is_whitespace(#[trigger] s[k]) by {
            assert(s[k] == t[k]);
        }
        assert forall|k: int| j <= k < s.len() implies is_whitespace(#[trigger] s[k]) by {
            if k < s.len() - 1 {
                assert(s[k] == t[k]);
            }
        }
        if i < j {
            assert(s[i] == t[i]);
            assert(s[j - 1] == t[j - 1]);
        }
        (i, j)
    } else {
        assert(s.subrange(0, s.len() as int) =~= s);
        (0, s.len() as int)
    }
}

/// Calls `str::trim`.
/// Trusted: the result is `s` with leading and trailing white space removed,
/// white space being the Unicode White_Space characters (`char::is_whitespace`).
#[verifier::external_body]
pub(crate) fn str_trim(s: &str) -> (res: &str)
    ensures
        res@ == trim_chars(s@),
        res@.len() > 0 ==> !is_whitespace(res@[0]) && !is_whitespace(res@.last()),
{
    s.trim()
}

} // verus!
