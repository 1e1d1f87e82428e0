//! Transaction ids and the files that hold transactions.
//!
//! Every transaction is stored as `log/tx_<timestamp>_<uuid>.json`; a lookup
//! by id parses the id as a UUID first (which rules out path tricks in the
//! id) and then looks for the file whose name ends in `_<uuid>.json`.
use vstd::prelude::*;
use crate::text::{digit_char, ends_with, has_suffix, push_char, push_chars, push_str, str_eq, to_chars};

verus! {

#[verifier::external_type_specification]
#[verifier::external_body]
pub struct ExUuidError(uuid::Error);

/// The 128-bit value that `uuid::Uuid::parse_str` reads from `s`, or `None`
/// where it rejects `s`.
pub uninterp spec fn parsed_uuid(s: Seq<char>) -> Option<u128>;

/// The lowercase hexadecimal digit for `d`, which is below sixteen.
pub open spec fn hex_char(d: nat) -> char {
    if d < 10 {
        digit_char(d)
    } else if d == 10 {
        'a'
    } else if d == 11 {
        'b'
    } else if d == 12 {
        'c'
    } else if d == 13 {
        'd'
    } else if d == 14 {
        'e'
    } else {
        'f'
    }
}

/// The last `n` hexadecimal digits of `v`, most significant first.
pub open spec fn hex_digits(v: nat, n: nat) -> Seq<char>
    decreases n,
{
    if n == 0 {
        Seq::empty()
    } else {
        hex_digits(v / 16, (n - 1) as nat).push(hex_char(v % 16))
    }
}

/// The hyphenated lowercase form of a UUID, `xxxxxxxx-xxxx-xxxx-xxxx-xxxxxxxxxxxx`,
/// whose 32 digits are the value's big-endian hexadecimal digits.
pub open spec fn uuid_hyphenated(v: u128) -> Seq<char> {
    let h = hex_digits(v as nat, 32);
    h.subrange(0, 8) + seq!['-'] + h.subrange(8, 12) + seq!['-'] + h.subrange(12, 16)
        + seq!['-'] + h.subrange(16, 20) + seq!['-'] + h.subrange(20, 32)
}

/// The shape of every string that `uuid::Uuid::parse_str` accepts: 32, 36,
/// 38 or 45 characters (the simple, hyphenated, braced and URN forms), each
/// an ASCII letter or digit, `-`, `{`, `}` or `:`.
pub open spec fn uuid_shaped(s: Seq<char>) -> bool {
    &&& (s.len() == 32 || s.len() == 36 || s.len() == 38 || s.len() == 45)
    &&& forall|i: int|
        0 <= i < s.len() ==> {
            let c = #[trigger] s[i];
            ||| '0' <= c <= '9'
            ||| 'a' <= c <= 'z'
            ||| 'A' <= c <= 'Z'
            ||| c == '-'
            ||| c == '{'
            ||| c == '}'
            ||| c == ':'
        }
}

/// Calls `uuid::Uuid::parse_str` and takes the parsed UUID as its 128-bit
/// value. The contract names the outcome `parsed_uuid`. Of the accepted
/// strings it states only their shape: the parser looks at inputs of 32, 36,
/// 38 or 45 bytes alone, and reads in them only hexadecimal digits, hyphens,
/// braces and the prefix `urn:uuid:`, all ASCII.
#[verifier::external_body]
fn parse_uuid(s: &str) -> (r: Result<u128, uuid::Error>)
    ensures
        r is Ok <==> parsed_uuid(s@) is Some,
        r matches Ok(v) ==> parsed_uuid(s@) == Some(v),
        r is Ok ==> uuid_shaped(s@),
{
    uuid::Uuid::parse_str(s).map(|u| u.as_u128())
}

/// Calls `uuid::Uuid::from_u128` and formats the UUID with `Display`, which
/// the crate writes as the hyphenated lowercase form. The crate documents that
/// `parse_str` accepts every form it writes, so the text parses back to `v`.
#[verifier::external_body]
pub(crate) fn uuid_text(v: u128) -> (r: String)
    ensures
        r@ == uuid_hyphenated(v),
        parsed_uuid(r@) == Some(v),
{
    uuid::Uuid::from_u128(v).to_string()
}

/// The HTTP status of a refused transaction id: 400 Bad Request.
pub open spec fn bad_request() -> u16 {
    400
}

/// Parses a transaction id as a UUID; an id that is no UUID is refused with
/// status 400, so that no header or path is built from an unchecked id: an
/// accepted id holds no `/`, `.` or other path character.
pub fn validate_id(id: &str) -> (r: Result<u128, u16>)
    ensures
        parsed_uuid(id@) is Some ==> r == Ok::<u128, u16>(parsed_uuid(id@)->0),
        parsed_uuid(id@) is None ==> r == Err::<u128, u16>(400),
        r is Ok ==> uuid_shaped(id@),
{
    match parse_uuid(id) {
        Ok(v) => Ok(v),
        Err(_) => Err(400),
    }
}

/// The hyphenated text of a transaction id.
pub fn id_text(id: u128) -> (r: String)
    ensures
        r@ == uuid_hyphenated(id),
        parsed_uuid(r@) == Some(id),
{
    uuid_text(id)
}

/// The end of the name of the file that holds transaction `id`: `_<id>.json`.
pub open spec fn tx_file_suffix_spec(id: Seq<char>) -> Seq<char> {
    seq!['_'] + id + ".json"@
}

/// `_<id>.json`, the end of the file name of the transaction with this id.
pub fn tx_file_suffix(id: &str) -> (r: String)
    ensures
        r@ == tx_file_suffix_spec(id@),
{
    let mut s = String::new();
    push_char(&mut s, '_');
    push_str(&mut s, id);
    push_str(&mut s, ".json");
    s
}

/// Whether `file_name` is the file of the transaction with id `id`: its name
/// ends in `_<id>.json`.
pub fn is_tx_file(file_name: &str, id: &str) -> (r: bool)
    ensures
        r == has_suffix(file_name@, tx_file_suffix_spec(id@)),
{
    let suffix = tx_file_suffix(id);
    ends_with(file_name, suffix.as_str())
}

/// Whether a file name has the extension `json`, as `Path::extension`
/// reads it: the part after the last `.`, where that `.` is not the first
/// character of the name.
pub open spec fn has_json_extension_spec(name: Seq<char>) -> bool {
    exists|i: int|
        #![trigger name[i]]
        0 < i < name.len() && name[i] == '.' && name.skip(i + 1) == "json"@ && !name.skip(
            i + 1,
        ).contains('.')
}

/// Whether the file name has the extension `json`.
pub fn has_json_extension(name: &str) -> (r: bool)
    ensures
        r == has_json_extension_spec(name@),
{
    let v = to_chars(name);
    let n = v.len();
    if n == 0 {
        return false;
    }
    // find the last '.'
    let mut i: usize = n;
    while i > 0 && v[i - 1] != '.'
        invariant
            n == v@.len(),
            0 <= i <= n,
            forall|k: int| i <= k < n ==> v@[k] != '.',
        decreases i,
    {
        i = i - 1;
    }
    if i <= 1 {
        proof {
            assert forall|k: int| 0 < k < v@.len() && v@[k] == '.' implies v@.skip(k + 1).contains(
                '.',
            ) || v@.skip(k + 1) != "json"@ by {
                assert(k < i);
            }
        }
        return false;
    }
    let dot = i - 1;
    let mut ext = String::new();
    push_chars(&mut ext, &v, i, n);
    let r = str_eq(ext.as_str(), "json");
    proof {
        assert(v@.subrange(i as int, n as int) =~= v@.skip(dot + 1));
        assert(!v@.skip(dot + 1).contains('.')) by {
            assert forall|k: int| 0 <= k < v@.skip(dot + 1).len() implies #[trigger] v@.skip(
                dot + 1,
            )[k] != '.' by {
                assert(v@.skip(dot + 1)[k] == v@[dot + 1 + k]);
            }
        }
        if r {
            assert(v@[dot as int] == '.');
        }
        if has_json_extension_spec(v@) {
            let k = choose|k: int|
                #![trigger v@[k]]
                0 < k < v@.len() && v@[k] == '.' && v@.skip(k + 1) == "json"@ && !v@.skip(
                    k + 1,
                ).contains('.');
            if k < dot {
                assert(v@.skip(k + 1)[dot - k - 1] == '.');
            }
            assert(k == dot);
        }
    }
    r
}

/// Why loading a transaction file failed.
pub enum LoadFailure {
    /// The log directory could not be listed.
    ListDirectory,
    /// The transaction's file could not be read.
    ReadFile,
    /// The file's contents are not the expected JSON.
    Parse,
    /// No file holds a transaction with this id.
    NotFound,
}

impl LoadFailure {
    /// The HTTP status a failed load answers with: 500 when the directory or
    /// file cannot be read, 400 when the file does not parse, 404 when no file
    /// matches.
    pub open spec fn status_spec(&self) -> u16 {
        match self {
            LoadFailure::ListDirectory => 500,
            LoadFailure::ReadFile => 500,
            LoadFailure::Parse => 400,
            LoadFailure::NotFound => 404,
        }
    }

    /// The HTTP status for this failure.
    pub fn status(&self) -> (r: u16)
        ensures
            r == self.status_spec(),
    {
        match self {
            LoadFailure::ListDirectory => 500,
            LoadFailure::ReadFile => 500,
            LoadFailure::Parse => 400,
            LoadFailure::NotFound => 404,
        }
    }
}

} // verus!
