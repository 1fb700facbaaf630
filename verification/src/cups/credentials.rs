//! Credential checksums and the CUPS credential blob.
use vstd::prelude::*;
use vstd::slice::slice_subrange;
use vstd::string::StringSliceAdditionalSpecFns;
use vstd::utf8::*;

use crate::text::{
    find_pair, is_ws, lemma_first_occurrence, lemma_trimmed_ends, occurs_at, split_once, str_chars,
    str_from_utf8, string_from_chars, sub_chars, trim, trim_bounds, trim_end, trim_start,
};

verus! {

/// One bit of the reflected CRC-32 register shift (polynomial 0xEDB88320).
pub open spec fn crc32_bit(c: u32) -> u32 {
    if c & 1u32 == 1u32 {
        (c >> 1u32) ^ 0xEDB8_8320u32
    } else {
        c >> 1u32
    }
}

/// `k` bits of register shifts.
pub open spec fn crc32_bits(c: u32, k: nat) -> u32
    decreases k,
{
    if k == 0 {
        c
    } else {
        crc32_bits(crc32_bit(c), (k - 1) as nat)
    }
}

/// The CRC-32 register after feeding `data`, byte by byte, low bit first.
pub open spec fn crc32_update(c: u32, data: Seq<u8>) -> u32
    decreases data.len(),
{
    if data.len() == 0 {
        c
    } else {
        crc32_update(crc32_bits(c ^ (data[0] as u32), 8), data.drop_first())
    }
}

/// The CRC-32 (IEEE 802.3) checksum of a byte sequence: register preset to
/// all ones, reflected polynomial 0xEDB88320, result inverted.
pub open spec fn crc32(data: Seq<u8>) -> u32 {
    crc32_update(0xFFFF_FFFFu32, data) ^ 0xFFFF_FFFFu32
}

/// Checksums a byte slice (`crc32fast::hash`). Claims that the result is
/// the standard CRC-32 of the bytes, as `crc32` states it.
#[verifier::external_body]
fn crc32_hash(data: &[u8]) -> (r: u32)
    ensures
        r == crc32(data@),
{
    crc32fast::hash(data)
}

/// The bytes of an optional file, empty when there is none.
pub open spec fn file_bytes(f: Option<&[u8]>) -> Seq<u8> {
    match f {
        Some(d) => d@,
        None => Seq::empty(),
    }
}

fn append_bytes(out: &mut Vec<u8>, src: &[u8])
    ensures
        final(out)@ == old(out)@ + src@,
{
    let n = src.len();
    let mut i: usize = 0;
    while i < n
        invariant
            n == src@.len(),
            i <= n,
            out@ == old(out)@ + src@.subrange(0, i as int),
        decreases n - i,
    {
        out.push(src[i]);
        i = i + 1;
        proof {
            assert(src@.subrange(0, i as int) == src@.subrange(0, i - 1).push(src@[i - 1]));
        }
    }
    proof {
        assert(src@.subrange(0, n as int) == src@);
    }
}

/// CRC32 of the concatenation of the credential files. A file that is not
/// configured or could not be read (`None`) contributes nothing.
pub fn compute_cred_crc(ca_cert: Option<&[u8]>, tls_cert: Option<&[u8]>, tls_key: Option<&[u8]>) -> (r: u32)
    ensures
        r == crc32(file_bytes(ca_cert) + file_bytes(tls_cert) + file_bytes(tls_key)),
{
    let mut all: Vec<u8> = Vec::new();
    if let Some(d) = ca_cert {
        append_bytes(&mut all, d);
    }
    if let Some(d) = tls_cert {
        append_bytes(&mut all, d);
    }
    if let Some(d) = tls_key {
        append_bytes(&mut all, d);
    }
    proof {
        assert(all@ =~= file_bytes(ca_cert) + file_bytes(tls_cert) + file_bytes(tls_key));
    }
    crc32_hash(all.as_slice())
}

/// CRC32 of each signature key file, in order.
pub fn compute_sig_key_crcs(sig_keys: &Vec<Vec<u8>>) -> (r: Vec<u32>)
    ensures
        r@.len() == sig_keys@.len(),
        forall|i: int| 0 <= i < r@.len() ==> r@[i] == crc32(#[trigger] sig_keys@[i]@),
{
    let mut crcs: Vec<u32> = Vec::new();
    let n = sig_keys.len();
    let mut i: usize = 0;
    while i < n
        invariant
            n == sig_keys@.len(),
            i <= n,
            crcs@.len() == i,
            forall|j: int| 0 <= j < i ==> crcs@[j] == crc32(#[trigger] sig_keys@[j]@),
        decreases n - i,
    {
        crcs.push(crc32_hash(sig_keys[i].as_slice()));
        i = i + 1;
    }
    crcs
}

/// CRC32 of a single credential file (e.g. a CUPS-saved blob); 0 when there
/// is no such file or it could not be read.
pub fn compute_cred_crc_from_file(data: Option<&[u8]>) -> (r: u32)
    ensures
        r == match data {
            Some(d) => crc32(d@),
            None => 0,
        },
{
    match data {
        Some(d) => crc32_hash(d),
        None => 0,
    }
}

/// Total byte length (tag, length octets and content) of the DER SEQUENCE at
/// the start of `d`: short-form lengths and the two-byte long form (0x82).
pub open spec fn asn1_seq_len(d: Seq<u8>) -> Option<int> {
    if d.len() < 2 || d[0] != 0x30 {
        None
    } else if d[1] < 0x80 {
        Some(2 + d[1] as int)
    } else if d[1] != 0x82 || d.len() < 4 {
        None
    } else {
        Some(4 + 256 * d[2] as int + d[3] as int)
    }
}

/// The `(header_name, header_value)` carried by a token-mode credential blob:
/// after the trust SEQUENCE comes the token-mode sentinel, exactly four zero
/// bytes, then a UTF-8 header line "Name: Value" (surrounding whitespace
/// ignored). Any other blob (X.509 mode) carries none.
pub open spec fn token_from_cred(d: Seq<u8>) -> Option<(Seq<char>, Seq<char>)> {
    match asn1_seq_len(d) {
        None => None,
        Some(co) => if co + 4 > d.len() || d[co] != 0 || d[co + 1] != 0 || d[co + 2] != 0 || d[co + 3] != 0
            || co + 4 >= d.len() {
            None
        } else {
            let tail = d.subrange(co + 4, d.len() as int);
            if !valid_utf8(tail) {
                None
            } else {
                match split_once(trim(decode_utf8(tail)), seq![':', ' ']) {
                    Some((name, value)) => Some((trim(name), trim(value))),
                    None => None,
                }
            }
        },
    }
}

/// Returns the total byte length (tag + length octets + content) of the DER
/// SEQUENCE starting at `data[0]`.
pub fn asn1_seq_total_len(data: &[u8]) -> (r: Option<usize>)
    ensures
        r matches Some(n) ==> asn1_seq_len(data@) == Some(n as int),
        r is None ==> asn1_seq_len(data@) is None,
{
    if data.len() < 2 || data[0] != 0x30 {
        None
    } else if data[1] < 0x80 {
        Some(2 + data[1] as usize)
    } else if data[1] != 0x82 || data.len() < 4 {
        None
    } else {
        Some(4 + 256 * (data[2] as usize) + data[3] as usize)
    }
}

/// A trimmed copy of `s` as a `String`.
fn trimmed_string(s: &Vec<char>) -> (r: String)
    ensures
        r@ == trim(s@),
{
    let (a, b) = trim_bounds(s);
    string_from_chars(&sub_chars(s, a, b))
}

/// Splits a header line "Name: Value" (after trimming it) at the first ": ",
/// trimming both parts.
fn header_pair(chars: &Vec<char>) -> (r: Option<(String, String)>)
    ensures
        match split_once(trim(chars@), seq![':', ' ']) {
            Some((name, value)) => r matches Some(p) && p.0@ == trim(name) && p.1@ == trim(value),
            None => r is None,
        },
{
    let (a, b) = trim_bounds(chars);
    let header = sub_chars(chars, a, b);
    match find_pair(&header, ':', ' ') {
        Some(i) => {
            let name = sub_chars(&header, 0, i);
            let value = sub_chars(&header, i + 2, header.len());
            Some((trimmed_string(&name), trimmed_string(&value)))
        },
        None => None,
    }
}

/// Parse the authorization header from a CUPS credential blob in token mode,
/// e.g. `("Authorization", "Bearer NNSXS0...")`.
pub fn parse_token_from_cred(data: &[u8]) -> (r: Option<(String, String)>)
    ensures
        match token_from_cred(data@) {
            Some((name, value)) => r matches Some(p) && p.0@ == name && p.1@ == value,
            None => r is None,
        },
{
    if data.len() < 2 || data[0] != 0x30 {
        return None;
    }
    let co = match asn1_seq_total_len(data) {
        Some(n) => n,
        None => return None,
    };
    if co > data.len() || 4 > data.len() - co {
        return None;
    }
    if data[co] != 0x00 || data[co + 1] != 0x00 || data[co + 2] != 0x00 || data[co + 3] != 0x00 {
        return None;
    }
    let ko = co + 4;
    if ko >= data.len() {
        return None;
    }
    let tail = slice_subrange(data, ko, data.len());
    let line = match str_from_utf8(tail) {
        Some(s) => s,
        None => return None,
    };
    proof {
        encode_utf8_decode_utf8(line@);
    }
    let chars = str_chars(line);
    header_pair(&chars)
}

/// The DER header of a SEQUENCE with `n` content bytes: the tag 0x30, then
/// the length in short form below 0x80, else in the two-byte long form 0x82.
pub open spec fn der_seq_header(n: nat) -> Seq<u8> {
    if n < 0x80 {
        seq![0x30u8, n as u8]
    } else {
        seq![0x30u8, 0x82u8, (n / 256) as u8, (n % 256) as u8]
    }
}

/// A token-mode credential blob: a DER trust SEQUENCE with the given
/// content, the zero sentinel, then the UTF-8 header line "name: value".
pub open spec fn token_cred(trust: Seq<u8>, name: Seq<char>, value: Seq<char>) -> Seq<u8> {
    der_seq_header(trust.len()) + trust + seq![0u8, 0u8, 0u8, 0u8] + encode_utf8(
        name + seq![':', ' '] + value,
    )
}

/// The header written into a token-mode credential blob is the one read
/// back from it, whatever the length of the trust SEQUENCE that DER's short
/// or two-byte long form can carry, when its name and value are non-empty
/// and carry no surrounding whitespace, and the name holds no ": ".
pub proof fn law_token_header_round_trip(trust: Seq<u8>, name: Seq<char>, value: Seq<char>)
    requires
        trust.len() < 0x10000,
        name.len() > 0,
        value.len() > 0,
        trim(name) == name,
        trim(value) == value,
        forall|j: int| !occurs_at(name, seq![':', ' '], j),
    ensures
        token_from_cred(token_cred(trust, name, value)) == Some((name, value)),
{
    let sep = seq![':', ' '];
    let line = name + sep + value;
    let enc = encode_utf8(line);
    let hdr = der_seq_header(trust.len());
    let head = hdr + trust + seq![0u8, 0u8, 0u8, 0u8];
    let d = head + enc;
    assert(d == token_cred(trust, name, value));
    let co: int = hdr.len() + trust.len() as int;
    let t = trust.len() as int;
    if t < 0x80 {
        assert(d[0] == 0x30u8 && d[1] == t as u8);
        assert(asn1_seq_len(d) == Some(co));
    } else {
        assert(d[0] == 0x30u8 && d[1] == 0x82u8);
        assert(d[2] == (t / 256) as u8 && d[3] == (t % 256) as u8);
        assert(256 * (t / 256) + t % 256 == t);
        assert(asn1_seq_len(d) == Some(co));
    }
    assert(d[co] == 0u8 && d[co + 1] == 0u8 && d[co + 2] == 0u8 && d[co + 3] == 0u8);
    assert(head.len() == co + 4);
    encode_utf8_valid_utf8(line);
    encode_utf8_decode_utf8(line);
    if enc.len() == 0 {
        assert(decode_utf8(enc) =~= Seq::<char>::empty());
    }
    assert(d.subrange(co + 4, d.len() as int) =~= enc);
    // The line is already trimmed.
    lemma_trimmed_ends(name);
    lemma_trimmed_ends(value);
    assert(line[0] == name[0]);
    assert(line.last() == value.last());
    assert(trim_start(line) == line);
    assert(trim_end(line) == line);
    // The separator first occurs right after the name.
    let n = name.len() as int;
    assert(line.subrange(n, n + 2) =~= sep);
    assert forall|j: int| 0 <= j < n implies !occurs_at(line, sep, j) by {
        if j + 2 <= n {
            assert(line.subrange(j, j + 2) =~= name.subrange(j, j + 2));
            assert(!occurs_at(name, sep, j));
        } else {
            assert(line[j + 1] == ':');
            assert(line.subrange(j, j + 2)[1] == line[j + 1]);
        }
    }
    lemma_first_occurrence(line, sep, n);
    assert(line.subrange(0, n) =~= name);
    assert(line.subrange(n + 2, line.len() as int) =~= value);
}
} // verus!
