use vstd::prelude::*;
use vstd::slice::*;
use vstd::utf8::*;
use vstd::string::StringExecFns;

verus! {

broadcast use vstd::utf8::group_utf8_lib;

/// The eight bytes of `n`, most significant first.
pub open spec fn be_bytes(n: u64) -> Seq<u8> {
    seq![
        (n >> 56u64) as u8,
        (n >> 48u64) as u8,
        (n >> 40u64) as u8,
        (n >> 32u64) as u8,
        (n >> 24u64) as u8,
        (n >> 16u64) as u8,
        (n >> 8u64) as u8,
        n as u8,
    ]
}

/// The number that eight bytes stand for, most significant first.
pub open spec fn be_value(b: Seq<u8>) -> u64
    recommends
        b.len() == 8,
{
    ((b[0] as u64) << 56u64) | ((b[1] as u64) << 48u64) | ((b[2] as u64) << 40u64) | ((
    b[3] as u64) << 32u64) | ((b[4] as u64) << 24u64) | ((b[5] as u64) << 16u64) | ((
    b[6] as u64) << 8u64) | (b[7] as u64)
}

/// Reading back the eight bytes of a number gives the number.
pub proof fn lemma_be_roundtrip(n: u64)
    ensures
        be_bytes(n).len() == 8,
        be_value(be_bytes(n)) == n,
{
    let b = be_bytes(n);
    let b0 = (n >> 56u64) as u8;
    let b1 = (n >> 48u64) as u8;
    let b2 = (n >> 40u64) as u8;
    let b3 = (n >> 32u64) as u8;
    let b4 = (n >> 24u64) as u8;
    let b5 = (n >> 16u64) as u8;
    let b6 = (n >> 8u64) as u8;
    let b7 = n as u8;
    assert(b[0] == b0 && b[1] == b1 && b[2] == b2 && b[3] == b3);
    assert(b[4] == b4 && b[5] == b5 && b[6] == b6 && b[7] == b7);
    assert(((b0 as u64) << 56u64) | ((b1 as u64) << 48u64) | ((b2 as u64) << 40u64) | ((
    b3 as u64) << 32u64) | ((b4 as u64) << 24u64) | ((b5 as u64) << 16u64) | ((b6 as u64)
        << 8u64) | (b7 as u64) == n) by (bit_vector)
        requires
            b0 == (n >> 56u64) as u8,
            b1 == (n >> 48u64) as u8,
            b2 == (n >> 40u64) as u8,
            b3 == (n >> 32u64) as u8,
            b4 == (n >> 24u64) as u8,
            b5 == (n >> 16u64) as u8,
            b6 == (n >> 8u64) as u8,
            b7 == n as u8,
    ;
}

/// The eight big-endian bytes of `n`, as `u64::to_be_bytes` gives them.
pub fn u64_to_be(n: u64) -> (r: Vec<u8>)
    ensures
        r@ == be_bytes(n),
{
    let mut v: Vec<u8> = Vec::new();
    v.push((n >> 56u64) as u8);
    v.push((n >> 48u64) as u8);
    v.push((n >> 40u64) as u8);
    v.push((n >> 32u64) as u8);
    v.push((n >> 24u64) as u8);
    v.push((n >> 16u64) as u8);
    v.push((n >> 8u64) as u8);
    v.push(n as u8);
    assert(v@ =~= be_bytes(n));
    v
}

/// The number of eight big-endian bytes, as `u64::from_be_bytes` reads them.
pub fn u64_from_be(b: &[u8]) -> (n: u64)
    requires
        b@.len() == 8,
    ensures
        n == be_value(b@),
{
    ((b[0] as u64) << 56u64) | ((b[1] as u64) << 48u64) | ((b[2] as u64) << 40u64) | ((
    b[3] as u64) << 32u64) | ((b[4] as u64) << 24u64) | ((b[5] as u64) << 16u64) | ((
    b[6] as u64) << 8u64) | (b[7] as u64)
}

/// A tag byte, the eight-byte length of the payload, then the payload.
pub open spec fn len_prefixed(tag: u8, payload: Seq<u8>) -> Seq<u8> {
    seq![tag] + be_bytes(payload.len() as u64) + payload
}

/// A tag byte followed by the payload, with no length between them.
pub open spec fn tagged(tag: u8, payload: Seq<u8>) -> Seq<u8> {
    seq![tag] + payload
}

/// The length that a frame of at least nine bytes announces.
pub open spec fn announced_len(data: Seq<u8>) -> u64 {
    be_value(data.subrange(1, 9))
}

/// The payload of a frame whose announced length fits in it.
pub open spec fn announced_payload(data: Seq<u8>) -> Seq<u8> {
    data.subrange(9, 9 + announced_len(data))
}

/// The frame `len_prefixed(tag, payload)` announces the payload's length and carries it.
pub proof fn lemma_len_prefixed_parts(tag: u8, payload: Seq<u8>)
    requires
        payload.len() <= u64::MAX,
    ensures
        len_prefixed(tag, payload).len() == 9 + payload.len(),
        len_prefixed(tag, payload)[0] == tag,
        announced_len(len_prefixed(tag, payload)) == payload.len(),
        announced_payload(len_prefixed(tag, payload)) == payload,
{
    let f = len_prefixed(tag, payload);
    lemma_be_roundtrip(payload.len() as u64);
    assert(f.subrange(1, 9) =~= be_bytes(payload.len() as u64));
    assert(announced_payload(f) =~= payload);
}

/// Builds `len_prefixed(tag, payload)`.
pub fn encode_len_prefixed(tag: u8, payload: &[u8]) -> (r: Vec<u8>)
    ensures
        r@ == len_prefixed(tag, payload@),
{
    let mut v: Vec<u8> = Vec::new();
    v.push(tag);
    let len_bytes = u64_to_be(payload.len() as u64);
    v.extend_from_slice(len_bytes.as_slice());
    v.extend_from_slice(payload);
    assert(v@ =~= len_prefixed(tag, payload@));
    v
}

/// Builds `tagged(tag, payload)`.
pub fn encode_tagged(tag: u8, payload: &[u8]) -> (r: Vec<u8>)
    ensures
        r@ == tagged(tag, payload@),
{
    let mut v: Vec<u8> = Vec::new();
    v.push(tag);
    v.extend_from_slice(payload);
    assert(v@ =~= tagged(tag, payload@));
    v
}

/// The UTF-8 bytes of a string.
pub fn string_bytes(s: &String) -> (r: &[u8])
    ensures
        r@ == encode_utf8(s@),
{
    s.as_str().as_bytes()
}

/// A copy of the bytes of a slice.
pub fn bytes_to_vec(b: &[u8]) -> (r: Vec<u8>)
    ensures
        r@ == b@,
{
    slice_to_vec(b)
}

/// `String::from_utf8` of std: it gives a string exactly when the bytes are
/// valid UTF-8, and then the string whose UTF-8 encoding they are.
#[verifier::external_body]
pub(crate) fn string_from_utf8(bytes: &[u8]) -> (res: Option<String>)
    ensures
        res is Some <==> valid_utf8(bytes@),
        res matches Some(s) ==> s@ == decode_utf8(bytes@),
{
    String::from_utf8(bytes.to_vec()).ok()
}

/// `std::str::from_utf8`: it gives a string slice exactly when the bytes are
/// valid UTF-8, and then the string whose UTF-8 encoding they are.
#[verifier::external_body]
pub(crate) fn str_from_utf8(bytes: &[u8]) -> (res: Option<&str>)
    ensures
        res is Some <==> valid_utf8(bytes@),
        res matches Some(s) ==> s@ == decode_utf8(bytes@),
{
    std::str::from_utf8(bytes).ok()
}

/// The text of a string's UTF-8 encoding reads back as the string.
pub proof fn lemma_utf8_roundtrip(s: Seq<char>)
    ensures
        valid_utf8(encode_utf8(s)),
        decode_utf8(encode_utf8(s)) == s,
{
    encode_utf8_valid_utf8(s);
    encode_utf8_decode_utf8(s);
}

} // verus!

verus! {

/// The text that bytes hold, or the empty text where they are not valid UTF-8.
pub open spec fn utf8_or_empty(b: Seq<u8>) -> Seq<char> {
    if valid_utf8(b) {
        decode_utf8(b)
    } else {
        Seq::empty()
    }
}

/// The text that bytes hold, or `InvalidUtf8`.
pub open spec fn utf8_result(b: Seq<u8>) -> Result<Seq<char>, crate::message::common::MessageError> {
    if valid_utf8(b) {
        Ok(decode_utf8(b))
    } else {
        Err(crate::message::common::MessageError::InvalidUtf8)
    }
}

/// The text that bytes hold, or `InvalidUtf8`.
pub fn decode_text(b: &[u8]) -> (r: Result<String, crate::message::common::MessageError>)
    ensures
        match (r, utf8_result(b@)) {
            (Ok(s), Ok(t)) => s@ == t,
            (Err(e), Err(f)) => e == f,
            _ => false,
        },
{
    match string_from_utf8(b) {
        Some(s) => Ok(s),
        None => Err(crate::message::common::MessageError::InvalidUtf8),
    }
}

/// The text that bytes hold, or the empty text.
pub fn decode_text_or_empty(b: &[u8]) -> (r: String)
    ensures
        r@ == utf8_or_empty(b@),
{
    match string_from_utf8(b) {
        Some(s) => s,
        None => String::new(),
    }
}

/// The text that bytes hold as a slice of them, or `InvalidUtf8`.
pub fn view_text(b: &[u8]) -> (r: Result<&str, crate::message::common::MessageError>)
    ensures
        match (r, utf8_result(b@)) {
            (Ok(s), Ok(t)) => s@ == t,
            (Err(e), Err(f)) => e == f,
            _ => false,
        },
{
    match str_from_utf8(b) {
        Some(s) => Ok(s),
        None => Err(crate::message::common::MessageError::InvalidUtf8),
    }
}

/// The bytes after the first, of a non-empty sequence.
pub fn after_first(b: &[u8]) -> (r: &[u8])
    requires
        b@.len() >= 1,
    ensures
        r@ == b@.subrange(1, b@.len() as int),
{
    slice_subrange(b, 1, b.len())
}

} // verus!

verus! {

/// A vector of one byte.
pub fn single_byte(b: u8) -> (r: Vec<u8>)
    ensures
        r@ == seq![b],
{
    let v = vec![b];
    assert(v@ =~= seq![b]);
    v
}

} // verus!

verus! {

/// The decimal digits of `n`, most significant first, with no leading zero.
pub open spec fn decimal(n: nat) -> Seq<char>
    decreases n,
{
    if n < 10 {
        seq![(('0' as u8) + n) as char]
    } else {
        decimal(n / 10).push((('0' as u8) + (n % 10)) as char)
    }
}

/// The text of one decimal digit.
fn digit_text(d: usize) -> (r: &'static str)
    requires
        d < 10,
    ensures
        r@ == seq![(('0' as u8) + d) as char],
{
    proof {
        reveal_strlit("0");
        reveal_strlit("1");
        reveal_strlit("2");
        reveal_strlit("3");
        reveal_strlit("4");
        reveal_strlit("5");
        reveal_strlit("6");
        reveal_strlit("7");
        reveal_strlit("8");
        reveal_strlit("9");
    }
    match d {
        0 => "0",
        1 => "1",
        2 => "2",
        3 => "3",
        4 => "4",
        5 => "5",
        6 => "6",
        7 => "7",
        8 => "8",
        _ => "9",
    }
}

/// The decimal digits of a number, most significant first.
pub(crate) fn decimal_string(n: usize) -> (res: String)
    ensures
        res@ == decimal(n as nat),
    decreases n,
{
    if n < 10 {
        String::from_str(digit_text(n))
    } else {
        let mut s = decimal_string(n / 10);
        s.append(digit_text(n % 10));
        s
    }
}

/// The concatenation of two texts.
pub fn concat(a: String, b: &str) -> (r: String)
    ensures
        r@ == a@ + b@,
{
    a.concat(b)
}

/// How a message without text shows: its length in bytes.
pub open spec fn binary_label(n: nat) -> Seq<char> {
    "Binary Data<length="@ + decimal(n) + ">"@
}

/// How a message without text shows: its length in bytes.
pub fn binary_label_string(n: usize) -> (r: String)
    ensures
        r@ == binary_label(n as nat),
{
    let s = concat(String::from_str("Binary Data<length="), decimal_string(n).as_str());
    concat(s, ">")
}

} // verus!

verus! {

/// A copy of a vector of bytes.
pub fn copy_bytes(v: &Vec<u8>) -> (r: Vec<u8>)
    ensures
        r@ == v@,
{
    slice_to_vec(v.as_slice())
}

} // verus!
