//! The decisions inside a conversion: reading ffmpeg's progress lines,
//! wording its failures, and measuring a download.
use vstd::prelude::*;
use vstd::string::{StrSliceExecFns, StringExecFns};
use vstd::utf8::encode_utf8;

use crate::text::text_eq;

verus! {

/// The value of an ffmpeg progress line `out_time=<value>`: the line holds
/// one `=`, preceded by `out_time`.
pub open spec fn out_time_value(line: Seq<char>) -> Option<Seq<char>> {
    if line.len() >= 9 && line.take(8) == "out_time"@ && line[8] == '=' && (forall|k: int|
        9 <= k < line.len() ==> line[k] != '=') {
        Some(line.skip(9))
    } else {
        None
    }
}

/// Reads the time value of an ffmpeg progress line, if it is one.
pub fn out_time_field(line: &str) -> (r: Option<String>)
    ensures
        match r {
            Some(s) => out_time_value(line@) == Some(s@),
            None => out_time_value(line@) is None,
        },
{
    let n = line.unicode_len();
    if n < 9 {
        return None;
    }
    if !text_eq(line.substring_char(0, 8), "out_time") || line.get_char(8) != '=' {
        return None;
    }
    let mut k: usize = 9;
    while k < n
        invariant
            n == line@.len(),
            9 <= k <= n,
            forall|j: int| 9 <= j < k ==> line@[j] != '=',
        decreases n - k,
    {
        if line.get_char(k) == '=' {
            return None;
        }
        k = k + 1;
    }
    Some(String::from_str(line.substring_char(9, n)))
}

/// Whether `pat` occurs in `s`.
pub open spec fn occurs_in(pat: Seq<u8>, s: Seq<u8>) -> bool {
    exists|i: int| 0 <= i && i + pat.len() <= s.len() && #[trigger] s.subrange(i, i + pat.len()) == pat
}

fn occurs_at(pat: &[u8], s: &[u8], i: usize) -> (r: bool)
    requires
        i + pat@.len() <= s@.len(),
    ensures
        r == (s@.subrange(i as int, i + pat@.len()) == pat@),
{
    let n = s.len();
    let mut j: usize = 0;
    while j < pat.len()
        invariant
            n == s@.len(),
            i + pat@.len() <= s@.len(),
            j <= pat@.len(),
            forall|k: int| 0 <= k < j ==> s@[i + k] == pat@[k],
        decreases pat@.len() - j,
    {
        if s[i + j] != pat[j] {
            assert(s@.subrange(i as int, i + pat@.len())[j as int] != pat@[j as int]);
            return false;
        }
        j = j + 1;
    }
    assert(s@.subrange(i as int, i + pat@.len()) =~= pat@);
    true
}

fn occurs(pat: &[u8], s: &[u8]) -> (r: bool)
    ensures
        r == occurs_in(pat@, s@),
{
    if pat.len() > s.len() {
        return false;
    }
    let last = s.len() - pat.len();
    let mut i: usize = 0;
    loop
        invariant
            i <= last,
            last + pat@.len() == s@.len(),
            forall|k: int| 0 <= k < i ==> #[trigger] s@.subrange(k, k + pat@.len()) != pat@,
        ensures
            forall|k: int| 0 <= k <= last ==> #[trigger] s@.subrange(k, k + pat@.len()) != pat@,
        decreases last - i,
    {
        if occurs_at(pat, s, i) {
            return true;
        }
        if i == last {
            break;
        }
        i = i + 1;
    }
    false
}

/// What ffmpeg writes where a hardware encoder is missing.
pub open spec fn missing_encoder_phrase() -> Seq<char> {
    "Encoder not found"@
}

/// The message shown in place of ffmpeg's output where a hardware encoder is
/// missing.
pub open spec fn missing_encoder_advice() -> Seq<char> {
    "Your GPU does not support hardware acceleration for this encoder. Please try to change the encoder or use CPU (Normal) encoding."@
}

/// The detail of a failed conversion: advice to change the encoder where
/// ffmpeg could not find one, its error output otherwise.
pub fn failure_detail(stderr: String) -> (r: String)
    ensures
        occurs_in(encode_utf8(missing_encoder_phrase()), encode_utf8(stderr@)) ==> r@
            == missing_encoder_advice(),
        !occurs_in(encode_utf8(missing_encoder_phrase()), encode_utf8(stderr@)) ==> r@ == stderr@,
{
    let phrase: &str = "Encoder not found";
    if occurs(phrase.as_bytes(), stderr.as_str().as_bytes()) {
        String::from_str(
            "Your GPU does not support hardware acceleration for this encoder. Please try to change the encoder or use CPU (Normal) encoding.",
        )
    } else {
        stderr
    }
}

/// Bytes received so far after a chunk arrives, never beyond the announced
/// total.
pub fn advance_download(downloaded: u64, chunk_len: u64, total: u64) -> (r: u64)
    ensures
        r == if downloaded + chunk_len <= total {
            (downloaded + chunk_len) as int
        } else {
            total as int
        },
{
    if chunk_len > total || downloaded > total - chunk_len {
        total
    } else {
        downloaded + chunk_len
    }
}

/// Whole percent of `done` out of `total`, at most 100; 0 where the total is
/// unknown (zero).
pub fn percent_of(done: u64, total: u64) -> (r: u32)
    ensures
        total == 0 ==> r == 0,
        total > 0 ==> r == if done >= total { 100 } else { (done as nat * 100) / (total as nat) },
{
    if total == 0 {
        return 0;
    }
    if done >= total {
        return 100;
    }
    let p: u128 = (done as u128 * 100) / (total as u128);
    assert(p < 100) by (nonlinear_arith)
        requires
            p as int == (done as int * 100) / (total as int),
            done < total,
            total > 0,
    ;
    p as u32
}

} // verus!
