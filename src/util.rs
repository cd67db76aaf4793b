//! Constants shared by the file manager and the byte formatters.

use vstd::prelude::*;
use vstd::string::{StrSliceExecFns, StringExecFns};

verus! {

/// Event loop polling interval in milliseconds.
pub const EVENT_POLL_MS: u64 = 50;

/// Error message display duration in seconds.
pub const ERROR_DISPLAY_SECS: u64 = 3;

/// Job visibility threshold in milliseconds.
pub const JOB_VISIBILITY_THRESHOLD_MS: u64 = 500;

/// Page up/down scroll amount.
pub const PAGE_SCROLL_SIZE: usize = 10;

/// Copy buffer size (64 KB).
pub const COPY_BUFFER_SIZE: usize = 65536;

/// Throughput history sample count.
pub const THROUGHPUT_HISTORY_SIZE: usize = 60;

/// Throughput sampling interval in milliseconds.
pub const THROUGHPUT_SAMPLE_INTERVAL_MS: u64 = 200;

/// Rename progress dialog auto-close delay in seconds.
pub const RENAME_DIALOG_TIMEOUT_SECS: u64 = 4;

/// Largest integer below which every integer is exactly a double (2^53).
pub const DOUBLE_EXACT_LIMIT: u128 = 9007199254740992;

pub open spec fn digit_char(d: nat) -> char {
    if d == 0 { '0' }
    else if d == 1 { '1' }
    else if d == 2 { '2' }
    else if d == 3 { '3' }
    else if d == 4 { '4' }
    else if d == 5 { '5' }
    else if d == 6 { '6' }
    else if d == 7 { '7' }
    else if d == 8 { '8' }
    else { '9' }
}

/// Decimal digits of `n`, most significant first, without leading zeros.
pub open spec fn decimal(n: nat) -> Seq<char>
    decreases n,
{
    if n < 10 {
        seq![digit_char(n)]
    } else {
        decimal(n / 10).push(digit_char(n % 10))
    }
}

/// `n / d` rounded to the nearest integer, ties to the even neighbour.
pub open spec fn div_round_even(n: nat, d: nat) -> nat {
    let q = n / d;
    let r = n % d;
    if 2 * r > d || (2 * r == d && q % 2 == 1) {
        (q + 1) as nat
    } else {
        q
    }
}

/// Spacing of doubles around `b`, searched upward from `step`: the smallest
/// power of two (times `step`) such that `b < step * 2^53`.
pub open spec fn double_step_from(b: nat, step: nat) -> nat
    decreases b - step,
{
    if step == 0 || b < step * DOUBLE_EXACT_LIMIT {
        step
    } else {
        double_step_from(b, 2 * step)
    }
}

/// The value of `b as f64`: `b` rounded to the nearest double, ties to even.
pub open spec fn as_double(b: nat) -> nat {
    let step = double_step_from(b, 1);
    div_round_even(b, step) * step
}

/// Size of the unit shown for `b` bytes: 1 below 1 KiB, else the largest of
/// KiB, MiB, GiB, TiB not above `b`.
pub open spec fn unit_of(b: nat) -> nat {
    if b >= 0x100_0000_0000 { 0x100_0000_0000 }
    else if b >= 0x4000_0000 { 0x4000_0000 }
    else if b >= 0x10_0000 { 0x10_0000 }
    else if b >= 0x400 { 0x400 }
    else { 1 }
}

pub open spec fn suffix_of(b: nat, long_suffix: bool) -> Seq<char> {
    if b >= 0x100_0000_0000 {
        if long_suffix { seq!['T', 'B'] } else { seq!['T'] }
    } else if b >= 0x4000_0000 {
        if long_suffix { seq!['G', 'B'] } else { seq!['G'] }
    } else if b >= 0x10_0000 {
        if long_suffix { seq!['M', 'B'] } else { seq!['M'] }
    } else if b >= 0x400 {
        if long_suffix { seq!['K', 'B'] } else { seq!['K'] }
    } else {
        if long_suffix { seq!['B'] } else { seq![] }
    }
}

/// Tenths of the shown value, as `{:.1}` rounds `b as f64 / unit`.
pub open spec fn shown_tenths(b: nat) -> nat {
    div_round_even(as_double(b) * 10, unit_of(b))
}

/// The text shown for `b` bytes: the plain count below 1 KiB, else the
/// value in the largest fitting unit with one decimal.
pub open spec fn bytes_text(b: nat, long_suffix: bool) -> Seq<char> {
    if b < 0x400 {
        decimal(b) + suffix_of(b, long_suffix)
    } else {
        let t = shown_tenths(b);
        decimal(t / 10) + seq!['.'] + seq![digit_char(t % 10)] + suffix_of(b, long_suffix)
    }
}

fn digit_str(d: u64) -> (r: &'static str)
    requires
        d < 10,
    ensures
        r@ == seq![digit_char(d as nat)],
{
    match d {
        0 => { proof { reveal_strlit("0"); } "0" },
        1 => { proof { reveal_strlit("1"); } "1" },
        2 => { proof { reveal_strlit("2"); } "2" },
        3 => { proof { reveal_strlit("3"); } "3" },
        4 => { proof { reveal_strlit("4"); } "4" },
        5 => { proof { reveal_strlit("5"); } "5" },
        6 => { proof { reveal_strlit("6"); } "6" },
        7 => { proof { reveal_strlit("7"); } "7" },
        8 => { proof { reveal_strlit("8"); } "8" },
        _ => { proof { reveal_strlit("9"); } "9" },
    }
}

/// Appends the decimal digits of `n` to `s`.
pub fn push_decimal(s: &mut String, n: u128)
    ensures
        final(s)@ == old(s)@ + decimal(n as nat),
    decreases n,
{
    if n >= 10 {
        push_decimal(s, n / 10);
    }
    s.append(digit_str((n % 10) as u64));
    assert(s@ =~= old(s)@ + decimal(n as nat));
}

/// `n / d` rounded to the nearest integer, ties to even.
fn div_round_even_u128(n: u128, d: u128) -> (r: u128)
    requires
        d > 0,
        n / d < u128::MAX,
    ensures
        r == div_round_even(n as nat, d as nat),
{
    let q = n / d;
    let rem = n % d;
    if rem > d - rem || (rem == d - rem && q % 2 == 1) {
        q + 1
    } else {
        q
    }
}

/// Formats a byte count with long suffixes ("1.5GB", "250KB", "512B").
pub fn format_bytes(bytes: u64) -> (r: String)
    ensures
        r@ == bytes_text(bytes as nat, true),
{
    format_bytes_impl(bytes, true)
}

/// Formats a byte count with short suffixes ("1.5G", "250K", "512").
pub fn format_size(bytes: u64) -> (r: String)
    ensures
        r@ == bytes_text(bytes as nat, false),
{
    format_bytes_impl(bytes, false)
}

fn suffix_str(bytes: u64, long_suffix: bool) -> (r: &'static str)
    ensures
        r@ == suffix_of(bytes as nat, long_suffix),
{
    proof {
        reveal_strlit("TB"); reveal_strlit("T"); reveal_strlit("GB"); reveal_strlit("G");
        reveal_strlit("MB"); reveal_strlit("M"); reveal_strlit("KB"); reveal_strlit("K");
        reveal_strlit("B"); reveal_strlit("");
    }
    if bytes >= 0x100_0000_0000 {
        if long_suffix { "TB" } else { "T" }
    } else if bytes >= 0x4000_0000 {
        if long_suffix { "GB" } else { "G" }
    } else if bytes >= 0x10_0000 {
        if long_suffix { "MB" } else { "M" }
    } else if bytes >= 0x400 {
        if long_suffix { "KB" } else { "K" }
    } else {
        if long_suffix { "B" } else { "" }
    }
}

fn unit_u128(bytes: u64) -> (r: u128)
    ensures
        r == unit_of(bytes as nat),
        r >= 1,
{
    if bytes >= 0x100_0000_0000 {
        0x100_0000_0000
    } else if bytes >= 0x4000_0000 {
        0x4000_0000
    } else if bytes >= 0x10_0000 {
        0x10_0000
    } else if bytes >= 0x400 {
        0x400
    } else {
        1
    }
}

/// `bytes as f64`, as an exact integer.
fn as_double_u128(bytes: u64) -> (r: u128)
    ensures
        r == as_double(bytes as nat),
        r <= bytes as nat + 4096,
{
    let b = bytes as u128;
    assert(b < 0x1_0000_0000_0000_0000u128);
    let mut step: u128 = 1;
    while b >= step * DOUBLE_EXACT_LIMIT
        invariant
            b == bytes as u128,
            step >= 1,
            step == 1 || (step / 2) * DOUBLE_EXACT_LIMIT <= b,
            step <= 4096,
            step % 2 == 0 || step == 1,
            double_step_from(b as nat, step as nat) == double_step_from(b as nat, 1),
        decreases b - step,
    {
        assert(step * 2 <= 4096) by (nonlinear_arith)
            requires step * DOUBLE_EXACT_LIMIT <= b, b < 0x1_0000_0000_0000_0000u128, step >= 1;
        step = step * 2;
    }
    let q = div_round_even_u128(b, step);
    assert(q <= b / step + 1);
    assert(q * step <= b + step) by (nonlinear_arith)
        requires q <= b / step + 1, step >= 1;
    q * step
}

fn format_bytes_impl(bytes: u64, long_suffix: bool) -> (r: String)
    ensures
        r@ == bytes_text(bytes as nat, long_suffix),
{
    let mut s = String::new();
    if bytes < 0x400 {
        push_decimal(&mut s, bytes as u128);
        s.append(suffix_str(bytes, long_suffix));
        return s;
    }
    let unit = unit_u128(bytes);
    let grid = as_double_u128(bytes);
    let tenths = div_round_even_u128(grid * 10, unit);
    push_decimal(&mut s, tenths / 10);
    proof { reveal_strlit("."); }
    s.append(".");
    s.append(digit_str((tenths % 10) as u64));
    s.append(suffix_str(bytes, long_suffix));
    assert(s@ =~= bytes_text(bytes as nat, long_suffix));
    s
}


/// The lowercase form that `str::to_lowercase` gives for a text.
pub uninterp spec fn lower_of(s: Seq<char>) -> Seq<char>;

/// Relies on `str::to_lowercase`: Unicode lowercase mapping, a function of
/// the characters alone.
#[verifier::external_body]
pub(crate) fn lowercase(s: &str) -> (r: String)
    ensures
        r@ == lower_of(s@),
{
    s.to_lowercase()
}

/// Relies on `String::push`: appends one character.
#[verifier::external_body]
pub(crate) fn push_char(s: &mut String, c: char)
    ensures
        final(s)@ == old(s)@.push(c),
{
    s.push(c)
}

/// Whether two texts hold the same characters.
pub fn text_eq(a: &str, b: &str) -> (r: bool)
    ensures
        r == (a@ == b@),
{
    let la = a.unicode_len();
    let lb = b.unicode_len();
    if la != lb {
        return false;
    }
    let mut i: usize = 0;
    while i < la
        invariant
            la == a@.len(),
            lb == b@.len(),
            la == lb,
            i <= la,
            forall|k: int| 0 <= k < i ==> a@[k] == b@[k],
        decreases la - i,
    {
        if a.get_char(i) != b.get_char(i) {
            return false;
        }
        i = i + 1;
    }
    assert(a@ =~= b@);
    true
}

/// Whether text `s` ends with `suffix`.
pub fn text_ends_with(s: &str, suffix: &str) -> (r: bool)
    ensures
        r == (s@.len() >= suffix@.len() && s@.subrange(s@.len() - suffix@.len(), s@.len() as int) == suffix@),
{
    let ls = s.unicode_len();
    let lf = suffix.unicode_len();
    if lf > ls {
        return false;
    }
    let off = ls - lf;
    let mut i: usize = 0;
    while i < lf
        invariant
            ls == s@.len(),
            lf == suffix@.len(),
            off == ls - lf,
            i <= lf,
            forall|k: int| 0 <= k < i ==> s@[off + k] == suffix@[k],
        decreases lf - i,
    {
        if s.get_char(off + i) != suffix.get_char(i) {
            assert(s@.subrange(off as int, ls as int)[i as int] != suffix@[i as int]);
            return false;
        }
        i = i + 1;
    }
    assert(s@.subrange(off as int, ls as int) =~= suffix@);
    true
}

} // verus!
