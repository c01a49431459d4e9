//! The deposit payload: the caller-supplied bytes that every deposit
//! notification carries, naming the target bundle. The accepted shape is
//! a JSON object with the single field `bundle_id`, whose value is a
//! string of printable ASCII characters without escapes; surrounding
//! whitespace is allowed. Anything else is rejected.

use vstd::prelude::*;

use crate::error::ContractError;
use crate::text::{ascii_chars, ascii_to_string};

verus! {

/// The base64 encoding of `b`, standard alphabet with padding; a function
/// of the bytes alone.
pub uninterp spec fn encode64_of(b: Seq<u8>) -> Seq<char>;

/// Relies on `base64::encode`: the standard-alphabet, padded encoding of
/// the input bytes, a function of the bytes alone.
#[verifier::external_body]
pub fn to_base64(b: &Vec<u8>) -> (r: String)
    ensures
        r@ == encode64_of(b@),
{
    base64::encode(b)
}

/// Relies on `base64::decode`: decoding inverts encoding, so a string that
/// is the encoding of some bytes decodes to exactly those bytes.
#[verifier::external_body]
pub fn from_base64(s: &String) -> (r: Result<Vec<u8>, ContractError>)
    ensures
        forall|b: Seq<u8>| s@ == encode64_of(b) ==> r is Ok && r->Ok_0@ == b,
{
    match base64::decode(s) {
        Ok(v) => Ok(v),
        Err(_) => Err(ContractError::DecodeError {}),
    }
}

/// JSON whitespace: space, tab, line feed, carriage return.
pub open spec fn is_ws(b: u8) -> bool {
    b == 0x20 || b == 0x09 || b == 0x0a || b == 0x0d
}

/// A byte allowed inside the bundle identifier: printable ASCII, not the
/// quote and not the backslash.
pub open spec fn is_id_byte(b: u8) -> bool {
    0x20 <= b && b <= 0x7e && b != 0x22 && b != 0x5c
}

/// The first position at or after `i` that does not hold whitespace.
pub open spec fn skip_ws(s: Seq<u8>, i: int) -> int
    decreases s.len() - i when 0 <= i <= s.len()
{
    if i < s.len() && is_ws(s[i]) {
        skip_ws(s, i + 1)
    } else {
        i
    }
}

/// The first position at or after `i` that does not hold an identifier
/// byte.
pub open spec fn id_end(s: Seq<u8>, i: int) -> int
    decreases s.len() - i when 0 <= i <= s.len()
{
    if i < s.len() && is_id_byte(s[i]) {
        id_end(s, i + 1)
    } else {
        i
    }
}

/// The eleven bytes of the quoted field name `bundle_id`.
pub open spec fn key_bytes() -> Seq<u8> {
    seq![0x22u8, 0x62, 0x75, 0x6e, 0x64, 0x6c, 0x65, 0x5f, 0x69, 0x64, 0x22]
}

/// What the payload bytes decode to: the bundle identifier where the
/// bytes have the accepted shape, nothing otherwise.
pub open spec fn spec_parse_payload(s: Seq<u8>) -> Option<Seq<char>> {
    let i0 = skip_ws(s, 0);
    if i0 < s.len() && s[i0] == 0x7b {  // '{'
        let i1 = skip_ws(s, i0 + 1);
        if i1 + 11 <= s.len() && s.subrange(i1, i1 + 11) == key_bytes() {
            let i2 = skip_ws(s, i1 + 11);
            if i2 < s.len() && s[i2] == 0x3a {  // ':'
                let i3 = skip_ws(s, i2 + 1);
                if i3 < s.len() && s[i3] == 0x22 {  // '"'
                    let e = id_end(s, i3 + 1);
                    if e < s.len() && s[e] == 0x22 {
                        let i4 = skip_ws(s, e + 1);
                        if i4 < s.len() && s[i4] == 0x7d && skip_ws(s, i4 + 1) == s.len() {
                            Some(ascii_chars(s.subrange(i3 + 1, e)))
                        } else {
                            None
                        }
                    } else {
                        None
                    }
                } else {
                    None
                }
            } else {
                None
            }
        } else {
            None
        }
    } else {
        None
    }
}

/// `id_end` stays within the sequence, and everything before it is an
/// identifier byte.
proof fn lemma_id_end_range(s: Seq<u8>, i: int)
    requires
        0 <= i <= s.len(),
    ensures
        i <= id_end(s, i) <= s.len(),
        forall|j: int| i <= j < id_end(s, i) ==> is_id_byte(s[j]),
    decreases s.len() - i,
{
    if i < s.len() && is_id_byte(s[i]) {
        lemma_id_end_range(s, i + 1);
    }
}

/// Finds `skip_ws` of the payload, executably.
fn skip_ws_exec(s: &Vec<u8>, from: usize) -> (r: usize)
    requires
        from <= s@.len(),
    ensures
        r == skip_ws(s@, from as int),
        from <= r <= s@.len(),
{
    let n: usize = s.len();
    let mut i: usize = from;
    while i < n && (s[i] == 0x20 || s[i] == 0x09 || s[i] == 0x0a || s[i] == 0x0d)
        invariant
            n == s@.len(),
            from <= i <= n,
            skip_ws(s@, from as int) == skip_ws(s@, i as int),
        decreases n - i,
    {
        i = i + 1;
    }
    i
}

/// Finds `id_end` of the payload, executably.
fn id_end_exec(s: &Vec<u8>, from: usize) -> (r: usize)
    requires
        from <= s@.len(),
    ensures
        r == id_end(s@, from as int),
        from <= r <= s@.len(),
{
    let n: usize = s.len();
    let mut i: usize = from;
    while i < n && (0x20 <= s[i] && s[i] <= 0x7e && s[i] != 0x22 && s[i] != 0x5c)
        invariant
            n == s@.len(),
            from <= i <= n,
            id_end(s@, from as int) == id_end(s@, i as int),
        decreases n - i,
    {
        i = i + 1;
    }
    i
}

/// Whether the eleven bytes at `at` spell the quoted field name.
fn match_key(s: &Vec<u8>, at: usize) -> (r: bool)
    requires
        at + 11 <= s@.len(),
    ensures
        r == (s@.subrange(at as int, at as int + 11) == key_bytes()),
{
    let n: usize = s.len();
    let mut key: Vec<u8> = Vec::new();
    key.push(0x22);
    key.push(0x62);
    key.push(0x75);
    key.push(0x6e);
    key.push(0x64);
    key.push(0x6c);
    key.push(0x65);
    key.push(0x5f);
    key.push(0x69);
    key.push(0x64);
    key.push(0x22);
    proof {
        assert(key@ =~= key_bytes());
    }
    let mut i: usize = 0;
    while i < 11
        invariant
            n == s@.len(),
            at + 11 <= n,
            key@ == key_bytes(),
            i <= 11,
            forall|j: int| 0 <= j < i ==> s@[at + j] == key_bytes()[j],
        decreases 11 - i,
    {
        if s[at + i] != key[i] {
            proof {
                assert(s@.subrange(at as int, at as int + 11)[i as int] != key_bytes()[i as int]);
            }
            return false;
        }
        i = i + 1;
    }
    proof {
        assert(s@.subrange(at as int, at as int + 11) =~= key_bytes());
    }
    true
}

/// Decodes the payload bytes to the bundle identifier they name.
/// A payload without the accepted shape is rejected, and nothing else
/// about the call has any effect.
pub fn parse_deposit_payload(payload: &Vec<u8>) -> (r: Result<String, ContractError>)
    ensures
        match spec_parse_payload(payload@) {
            Some(id) => r matches Ok(v) && v@ == id,
            None => r == Err::<String, ContractError>(ContractError::SerdeJsonError {}),
        },
{
    let n: usize = payload.len();
    let i0 = skip_ws_exec(payload, 0);
    if !(i0 < n && payload[i0] == 0x7b) {
        return Err(ContractError::SerdeJsonError {});
    }
    let i1 = skip_ws_exec(payload, i0 + 1);
    if !(n - i1 >= 11 && match_key(payload, i1)) {
        return Err(ContractError::SerdeJsonError {});
    }
    let i2 = skip_ws_exec(payload, i1 + 11);
    if !(i2 < n && payload[i2] == 0x3a) {
        return Err(ContractError::SerdeJsonError {});
    }
    let i3 = skip_ws_exec(payload, i2 + 1);
    if !(i3 < n && payload[i3] == 0x22) {
        return Err(ContractError::SerdeJsonError {});
    }
    let e = id_end_exec(payload, i3 + 1);
    if !(e < n && payload[e] == 0x22) {
        return Err(ContractError::SerdeJsonError {});
    }
    let i4 = skip_ws_exec(payload, e + 1);
    if !(i4 < n && payload[i4] == 0x7d) {
        return Err(ContractError::SerdeJsonError {});
    }
    if !(skip_ws_exec(payload, i4 + 1) == n) {
        return Err(ContractError::SerdeJsonError {});
    }
    let mut id_bytes: Vec<u8> = Vec::new();
    let mut j: usize = i3 + 1;
    proof {
        lemma_id_end_range(payload@, i3 as int + 1);
    }
    while j < e
        invariant
            i3 + 1 <= j <= e,
            e <= payload@.len(),
            id_bytes@ == payload@.subrange(i3 as int + 1, j as int),
        decreases e - j,
    {
        id_bytes.push(payload[j]);
        proof {
            assert(id_bytes@ =~= payload@.subrange(i3 as int + 1, j as int + 1));
        }
        j = j + 1;
    }
    proof {
        assert(forall|k: int| 0 <= k < id_bytes@.len() ==> is_id_byte(#[trigger] id_bytes@[k]));
    }
    Ok(ascii_to_string(id_bytes))
}

} // verus!
