//! Small helpers on links, identifiers, clocks and display text.

use vstd::prelude::*;
use vstd::string::StringSliceAdditionalSpecFns;
use vstd::utf8::*;

use crate::text::{decimal, decimal_string, strip_prefix};

verus! {

/// The scheme that links are stored without.
pub open spec fn https_scheme() -> Seq<char> {
    seq!['h', 't', 't', 'p', 's', ':', '/', '/']
}

/// The scheme that a link may carry instead of `https://`.
pub open spec fn http_scheme() -> Seq<char> {
    seq!['h', 't', 't', 'p', ':', '/', '/']
}

/// A link as the collection stores it: without a leading `https://`.
pub open spec fn normalized(link: Seq<char>) -> Seq<char> {
    if https_scheme().is_prefix_of(link) {
        link.subrange(8, link.len() as int)
    } else {
        link
    }
}

/// The address handed to the system's browser: a link without a scheme gets
/// `https://` in front.
pub open spec fn openable(link: Seq<char>) -> Seq<char> {
    if https_scheme().is_prefix_of(link) || http_scheme().is_prefix_of(link) {
        link
    } else {
        https_scheme() + link
    }
}

/// A lower-case hexadecimal digit.
pub open spec fn is_lower_hex(c: char) -> bool {
    ('0' <= c && c <= '9') || ('a' <= c && c <= 'f')
}

/// The text of a random (version 4) UUID in lower-case hyphenated form:
/// 36 characters, hyphens at 8, 13, 18 and 23, lower-case hex digits
/// elsewhere, the version digit `4` at 14 and one of `8 9 a b` at 19.
pub open spec fn is_uuid_v4_text(s: Seq<char>) -> bool {
    &&& s.len() == 36
    &&& forall|i: int|
        0 <= i < 36 ==> (if i == 8 || i == 13 || i == 18 || i == 23 {
            #[trigger] s[i] == '-'
        } else {
            is_lower_hex(s[i])
        })
    &&& s[14] == '4'
    &&& (s[19] == '8' || s[19] == '9' || s[19] == 'a' || s[19] == 'b')
}

/// Relies on `uuid::Uuid::new_v4`, which fixes the version and variant bits
/// of a random number, and on `Hyphenated::encode_lower`, which writes it as
/// 32 lower-case hex digits with hyphens after the 8th, 12th, 16th and 20th.
/// The digits themselves are random.
#[verifier::external_body]
pub fn gen_uuid() -> (r: String)
    ensures
        is_uuid_v4_text(r@),
{
    let random_uuid: uuid::Uuid = uuid::Uuid::new_v4();
    random_uuid.hyphenated().encode_lower(&mut uuid::Uuid::encode_buffer()).to_string()
}

#[verifier::external_type_specification]
#[verifier::external_body]
pub struct ExSystemTime(std::time::SystemTime);

#[verifier::external_type_specification]
#[verifier::external_body]
pub struct ExSystemTimeError(std::time::SystemTimeError);

/// Relies on `SystemTime::now`: the clock's present time, of which nothing
/// is known.
pub assume_specification[ std::time::SystemTime::now ]() -> (r: std::time::SystemTime);

/// Relies on `SystemTime::duration_since`: the time since `earlier`, or an
/// error when `earlier` is later.
pub assume_specification[ std::time::SystemTime::duration_since ](
    t: &std::time::SystemTime,
    earlier: std::time::SystemTime,
) -> (r: Result<std::time::Duration, std::time::SystemTimeError>);

/// Relies on `Duration::as_secs`: the whole seconds of a duration.
pub assume_specification[ std::time::Duration::as_secs ](d: &std::time::Duration) -> (r: u64);

/// Relies on `std::time::UNIX_EPOCH`: the time 1970-01-01 00:00:00 UTC.
#[verifier::external_body]
fn unix_epoch() -> (r: std::time::SystemTime) {
    std::time::UNIX_EPOCH
}

/// The seconds since the Unix epoch by the system clock; zero when the clock
/// is set before the epoch. Nothing is known of the value.
pub fn get_timestamp() -> (r: u64) {
    let now = std::time::SystemTime::now();
    match now.duration_since(unix_epoch()) {
        Ok(d) => d.as_secs(),
        Err(_) => 0,
    }
}

/// Strips one leading `https://` from a link.
pub fn normalize_link(link: String) -> (r: String)
    ensures
        r@ == normalized(link@),
{
    let scheme = "https://";
    proof {
        reveal_strlit("https://");
    }
    assert(scheme@ == https_scheme());
    match strip_prefix(link.as_str(), scheme) {
        Some(rest) => rest.to_owned(),
        None => link,
    }
}

/// The address to open for a stored link: `https://` is put in front unless
/// the link already names `http://` or `https://`.
pub fn link_to_open(link: &str) -> (r: String)
    ensures
        r@ == openable(link@),
{
    let secure = "https://";
    let plain = "http://";
    proof {
        reveal_strlit("https://");
        reveal_strlit("http://");
    }
    assert(secure@ == https_scheme());
    assert(plain@ == http_scheme());
    let has_secure = strip_prefix(link, secure).is_some();
    let has_plain = strip_prefix(link, plain).is_some();
    if has_secure || has_plain {
        link.to_owned()
    } else {
        let mut r = secure.to_owned();
        r.append(link);
        r
    }
}

/// Cuts `input` to its first `max_length` bytes and marks the cut with `...`;
/// a text that fits is returned whole.
pub fn truncate_with_ellipses(input: &str, max_length: usize) -> (r: String)
    requires
        input.spec_bytes().len() <= usize::MAX,
        input.spec_bytes().len() > max_length ==> is_char_boundary(
            input.spec_bytes(),
            max_length as int,
        ),
    ensures
        input.spec_bytes().len() <= max_length ==> r@ == input@,
        input.spec_bytes().len() > max_length ==> r@.len() >= 3,
        input.spec_bytes().len() > max_length ==> r@.subrange(r@.len() - 3, r@.len() as int)
            == seq!['.', '.', '.'],
        input.spec_bytes().len() > max_length ==> encode_utf8(r@.subrange(0, r@.len() - 3))
            == input.spec_bytes().subrange(0, max_length as int),
{
    if input.len() > max_length {
        let (head, _) = input.split_at(max_length);
        let mut r = head.to_owned();
        let dots = "...";
        proof {
            reveal_strlit("...");
        }
        assert(dots@ == seq!['.', '.', '.']);
        r.append(dots);
        assert(r@ == head@ + dots@);
        assert(r@.subrange(0, r@.len() - 3) == head@);
        assert(r@.subrange(r@.len() - 3, r@.len() as int) == dots@);
        r
    } else {
        input.to_owned()
    }
}

/// The name of the file that an export made at second `timestamp` writes.
pub open spec fn export_name(timestamp: u64) -> Seq<char> {
    seq!['r', 'e', 's', 'e', 'r', 'v', 'o', 'i', 'r', '_', 'i', 'n', 'f', 'o', '_'] + decimal(
        timestamp as nat,
    ) + seq!['.', 'j', 's', 'o', 'n']
}

/// `reservoir_info_<timestamp>.json`.
pub fn export_file_name(timestamp: u64) -> (r: String)
    ensures
        r@ == export_name(timestamp),
{
    let stem = "reservoir_info_";
    let extension = ".json";
    proof {
        reveal_strlit("reservoir_info_");
        reveal_strlit(".json");
    }
    let mut r = stem.to_owned();
    let digits = decimal_string(timestamp);
    r.append(digits.as_str());
    r.append(extension);
    r
}

} // verus!
