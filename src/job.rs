use vstd::arithmetic::power::pow;
use vstd::prelude::*;

verus! {

/// The 128-bit value that `uuid` reads from a textual identity, or `None`
/// where the text is not a UUID in one of the forms it accepts.
pub uninterp spec fn identity_value(s: Seq<char>) -> Option<u128>;

/// Lowercase hexadecimal digit for `d` in `0..16`.
pub open spec fn hex_digit(d: int) -> char {
    seq!['0', '1', '2', '3', '4', '5', '6', '7', '8', '9', 'a', 'b', 'c', 'd', 'e', 'f'][d]
}

/// The `k`-th of the 32 hexadecimal digits of `v`, most significant first.
pub open spec fn nibble(v: u128, k: int) -> int {
    (v as int / pow(16, (31 - k) as nat)) % 16
}

/// How many of the four separators stand before position `i` of the
/// hyphenated form.
pub open spec fn separators_before(i: int) -> int {
    if i < 8 {
        0
    } else if i < 13 {
        1
    } else if i < 18 {
        2
    } else if i < 23 {
        3
    } else {
        4
    }
}

/// The hyphenated lowercase form of a UUID value: 8-4-4-4-12 hex digits.
pub open spec fn uuid_text(v: u128) -> Seq<char> {
    Seq::new(
        36,
        |i: int|
            if i == 8 || i == 13 || i == 18 || i == 23 {
                '-'
            } else {
                hex_digit(nibble(v, i - separators_before(i)))
            },
    )
}

/// Relies on uuid's `Uuid::parse_str`, which accepts the simple, hyphenated,
/// braced and URN forms, and on `Uuid::as_u128`, which reads the 16 bytes
/// big-endian.
#[verifier::external_body]
fn parse_identity(s: &str) -> (r: Option<u128>)
    ensures
        r == identity_value(s@),
{
    uuid::Uuid::parse_str(s).ok().map(|u| u.as_u128())
}

/// Relies on uuid's `Uuid::from_u128` and on the `Display` of `Uuid`, which
/// writes the lowercase hyphenated form.
#[verifier::external_body]
fn format_identity(v: u128) -> (r: String)
    ensures
        r@ == uuid_text(v),
{
    uuid::Uuid::from_u128(v).to_string()
}

/// Reads a job identity from its textual form.
pub fn parse_job_id(s: &str) -> (r: Option<u128>)
    ensures
        r == identity_value(s@),
{
    parse_identity(s)
}

/// The canonical (hyphenated, lowercase) text of a job identity.
pub fn job_id_text(id: u128) -> (r: String)
    ensures
        r@ == uuid_text(id),
{
    format_identity(id)
}

/// A job as a client submits it: identity text, source path, target format
/// and media category.
#[derive(Debug)]
pub struct JobRequest {
    pub id: String,
    pub path: String,
    pub extension: String,
    pub category: String,
}

/// What the pipeline knows of a job: its identity and the three strings that
/// the conversion needs.
pub struct JobView {
    pub id: u128,
    pub path: Seq<char>,
    pub extension: Seq<char>,
    pub category: Seq<char>,
}

/// A job accepted into the pipeline.
#[derive(Debug)]
pub struct PipelineJob {
    pub id: u128,
    pub path: String,
    pub extension: String,
    pub category: String,
}

impl View for PipelineJob {
    type V = JobView;

    open spec fn view(&self) -> JobView {
        JobView {
            id: self.id,
            path: self.path@,
            extension: self.extension@,
            category: self.category@,
        }
    }
}

/// The job that a request describes, once its identity has been read.
pub open spec fn request_job(req: JobRequest, id: u128) -> JobView {
    JobView { id, path: req.path@, extension: req.extension@, category: req.category@ }
}

} // verus!
