//! Opaque bytes that may be absent, as an optional base64url string.
use vstd::prelude::*;

use crate::base64url::{b64_encode, symbol_count, url_safe_error};
use crate::wire::base64url_bytes_bytes::{self, law_one_reading, readable, writes};

verus! {

/// Write bytes, if there are any, as an unpadded base64url string.
pub fn serialize(value: &Option<Vec<u8>>) -> (r: Option<String>)
    requires
        value matches Some(b) ==> symbol_count(b@.len()) <= isize::MAX,
    ensures
        match value {
            Some(b) => r matches Some(s) && s@ == b64_encode(b@),
            None => r is None,
        },
{
    match value {
        Some(b) => Some(base64url_bytes_bytes::serialize(b.as_slice())),
        None => None,
    }
}

/// Read an optional base64url string.
pub fn deserialize(opt: Option<&str>) -> (r: Result<Option<Vec<u8>>, String>)
    ensures
        match opt {
            None => r == Ok::<Option<Vec<u8>>, String>(None),
            Some(s) => match r {
                Ok(v) => v matches Some(b) && writes(s@, b@),
                Err(e) => e@ == url_safe_error(s@) && !readable(s@),
            },
        },
{
    match opt {
        None => Ok(None),
        Some(s) => match base64url_bytes_bytes::deserialize(s) {
            Ok(v) => Ok(Some(v)),
            Err(e) => Err(e),
        },
    }
}

/// Law: bytes that are absent stay absent, and bytes that are there are written and
/// read back as they are.
pub proof fn law_written_value_is_read_back(
    value: Option<Vec<u8>>,
    written: Option<String>,
    opt: Option<&str>,
    r: Result<Option<Vec<u8>>, String>,
)
    requires
        call_ensures(serialize, (&value,), written),
        call_ensures(deserialize, (opt,), r),
        match (written, opt) {
            (Some(text), Some(s)) => s@ == text@,
            (None, None) => true,
            _ => false,
        },
    ensures
        value is None <==> opt is None,
        r is Ok,
        value is None ==> r->Ok_0 is None,
        value matches Some(bytes) ==> (r->Ok_0 matches Some(out) && out@ == bytes@),
{
    if let (Some(bytes), Some(s)) = (value, opt) {
        assert(writes(s@, bytes@));
        if let Ok(Some(out)) = r {
            law_one_reading(s@, out@, bytes@);
        }
    }
}

} // verus!
