use vstd::prelude::*;

verus! {

/// The text that lossy UTF-8 decoding makes of `b`.
pub uninterp spec fn lossy_text(b: Seq<u8>) -> Seq<char>;

/// Whether every byte of `b` is ASCII.
pub open spec fn all_ascii(b: Seq<u8>) -> bool {
    forall|i: int| 0 <= i < b.len() ==> #[trigger] b[i] < 128
}

/// The characters of ASCII bytes, one for one.
pub open spec fn ascii_chars(b: Seq<u8>) -> Seq<char> {
    b.map_values(|x: u8| x as char)
}

/// Relies on `String::from_utf8_lossy`: valid UTF-8 (ASCII in particular,
/// one character per byte) is decoded as it stands, malformed sequences are
/// replaced, and decoding never fails.
#[verifier::external_body]
fn decode_lossy(b: &[u8]) -> (r: String)
    ensures
        r@ == lossy_text(b@),
        all_ascii(b@) ==> r@ == ascii_chars(b@),
{
    String::from_utf8_lossy(b).into_owned()
}

/// The line shown for a record with key text `key` and value text `value`.
pub open spec fn record_line(key: Seq<char>, value: Seq<char>) -> Seq<char> {
    key + seq![':', ' '] + value
}

/// What is forwarded for a record: its decoded key and value as one line,
/// or nothing when the key or the value is missing.
pub open spec fn digest_of(key: Option<Seq<u8>>, value: Option<Seq<u8>>) -> Option<Seq<char>> {
    match (key, value) {
        (Some(k), Some(v)) => Some(record_line(lossy_text(k), lossy_text(v))),
        _ => None,
    }
}

/// The bytes of an optional field.
pub open spec fn opt_bytes(o: Option<&[u8]>) -> Option<Seq<u8>> {
    match o {
        Some(b) => Some(b@),
        None => None,
    }
}

/// The text of an optional string.
pub open spec fn opt_text(o: Option<String>) -> Option<Seq<char>> {
    match o {
        Some(s) => Some(s@),
        None => None,
    }
}

/// Formats decoded key and value text as `"<key>: <value>"`.
pub fn format_record(key: &str, value: &str) -> (r: String)
    ensures
        r@ == record_line(key@, value@),
{
    let mut r = String::from_str(key);
    r.append(": ");
    proof {
        reveal_strlit(": ");
    }
    r.append(value);
    r
}

/// Decodes a record's key and value lossily and formats them as one line.
/// A record without a key or without a value yields nothing.
pub fn digest(key: Option<&[u8]>, value: Option<&[u8]>) -> (r: Option<String>)
    ensures
        opt_text(r) == digest_of(opt_bytes(key), opt_bytes(value)),
{
    match (key, value) {
        (Some(k), Some(v)) => {
            let k_text = decode_lossy(k);
            let v_text = decode_lossy(v);
            Some(format_record(k_text.as_str(), v_text.as_str()))
        },
        _ => None,
    }
}

} // verus!

verus! {

/// A record with both a key and a value is forwarded as exactly
/// `"<key>: <value>"` over the decoded texts; for well-formed UTF-8 those
/// texts are the key and value themselves.
pub proof fn lemma_forwarded_line(k: Seq<u8>, v: Seq<u8>)
    ensures
        digest_of(Some(k), Some(v)) == Some(lossy_text(k) + seq![':', ' '] + lossy_text(v)),
{
}

/// A record missing its key or its value forwards nothing.
pub proof fn lemma_missing_field_forwards_nothing(k: Option<Seq<u8>>, v: Option<Seq<u8>>)
    requires
        k is None || v is None,
    ensures
        digest_of(k, v) is None,
{
}

} // verus!
