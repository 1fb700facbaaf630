//! The CUPS `update-info` exchange: the request URL and the binary response.
use vstd::prelude::*;
use vstd::slice::{slice_subrange, slice_to_vec};

use crate::text::{endpoint_url, lossy_text, string_from_utf8_lossy, trim_end_slashes};

verus! {

/// Parsed CUPS update response. A field is `None` when the server sent a
/// zero length for it (nothing to update).
#[derive(Debug)]
pub struct CupsUpdateResponse {
    pub cups_uri: Option<String>,
    pub tc_uri: Option<String>,
    pub cups_cred: Option<Vec<u8>>,
    pub tc_cred: Option<Vec<u8>>,
    pub sig_key_crc: Option<u32>,
    pub signature: Option<Vec<u8>>,
    pub update_data: Option<Vec<u8>>,
}

/// The mathematical content of a [`CupsUpdateResponse`].
pub struct CupsUpdate {
    pub cups_uri: Option<Seq<char>>,
    pub tc_uri: Option<Seq<char>>,
    pub cups_cred: Option<Seq<u8>>,
    pub tc_cred: Option<Seq<u8>>,
    pub sig_key_crc: Option<u32>,
    pub signature: Option<Seq<u8>>,
    pub update_data: Option<Seq<u8>>,
}

impl View for CupsUpdateResponse {
    type V = CupsUpdate;

    open spec fn view(&self) -> CupsUpdate {
        CupsUpdate {
            cups_uri: self.cups_uri.deep_view(),
            tc_uri: self.tc_uri.deep_view(),
            cups_cred: self.cups_cred.deep_view(),
            tc_cred: self.tc_cred.deep_view(),
            sig_key_crc: self.sig_key_crc,
            signature: self.signature.deep_view(),
            update_data: self.update_data.deep_view(),
        }
    }
}

/// Why a CUPS response was refused: it is shorter than the 14 bytes of an
/// all-empty response, or a length field points past the end of the data.
#[derive(Debug, PartialEq, Eq, Structural, Clone, Copy)]
pub enum CupsParseError {
    TooShort,
    TruncatedCupsUri,
    TruncatedTcUri,
    TruncatedCupsCredLen,
    TruncatedCupsCred,
    TruncatedTcCredLen,
    TruncatedTcCred,
    TruncatedSigLen,
    TruncatedSig,
    TruncatedUpdLen,
    TruncatedUpdData,
}

/// Little-endian 16-bit value at `p`.
pub open spec fn le16(d: Seq<u8>, p: int) -> int {
    d[p] as int + 256 * d[p + 1] as int
}

/// Little-endian 32-bit value at `p`.
pub open spec fn le32(d: Seq<u8>, p: int) -> int {
    d[p] as int + 256 * d[p + 1] as int + 65536 * d[p + 2] as int + 16777216 * d[p + 3] as int
}

/// `n` bytes at `p`, or `None` for a zero length.
pub open spec fn opt_bytes(d: Seq<u8>, p: int, n: int) -> Option<Seq<u8>> {
    if n > 0 {
        Some(d.subrange(p, p + n))
    } else {
        None
    }
}

/// `n` bytes at `p` read as UTF-8 text (lossily where ill-formed), or `None`
/// for a zero length.
pub open spec fn opt_text(d: Seq<u8>, p: int, n: int) -> Option<Seq<char>> {
    if n > 0 {
        Some(lossy_text(d.subrange(p, p + n)))
    } else {
        None
    }
}

/// The response layout (all lengths little-endian):
///   1 byte cupsUriLen, cupsUri; 1 byte tcUriLen, tcUri;
///   2 bytes cupsCredLen, cupsCred; 2 bytes tcCredLen, tcCred;
///   4 bytes sigLen, then (if sigLen > 0) 4 bytes keyCRC and sigLen - 4 bytes signature
///   (present, possibly empty, whenever sigLen > 0);
///   4 bytes updLen, updData.
/// Bytes after updData are ignored.
pub open spec fn cups_parse(d: Seq<u8>) -> Result<CupsUpdate, CupsParseError> {
    let len = d.len() as int;
    let n1 = d[0] as int;
    let p1 = 1 + n1;
    let n2 = d[p1] as int;
    let p2 = p1 + 1 + n2;
    let n3 = le16(d, p2);
    let p3 = p2 + 2 + n3;
    let n4 = le16(d, p3);
    let p4 = p3 + 2 + n4;
    let n5 = le32(d, p4);
    let p5 = p4 + 4 + n5;
    let n6 = le32(d, p5);
    if len < 14 {
        Err(CupsParseError::TooShort)
    } else if p1 > len {
        Err(CupsParseError::TruncatedCupsUri)
    } else if p2 > len {
        Err(CupsParseError::TruncatedTcUri)
    } else if p2 + 2 > len {
        Err(CupsParseError::TruncatedCupsCredLen)
    } else if p3 > len {
        Err(CupsParseError::TruncatedCupsCred)
    } else if p3 + 2 > len {
        Err(CupsParseError::TruncatedTcCredLen)
    } else if p4 > len {
        Err(CupsParseError::TruncatedTcCred)
    } else if p4 + 4 > len {
        Err(CupsParseError::TruncatedSigLen)
    } else if n5 > 0 && (n5 < 4 || p5 > len) {
        Err(CupsParseError::TruncatedSig)
    } else if p5 + 4 > len {
        Err(CupsParseError::TruncatedUpdLen)
    } else if p5 + 4 + n6 > len {
        Err(CupsParseError::TruncatedUpdData)
    } else {
        Ok(
            CupsUpdate {
                cups_uri: opt_text(d, 1, n1),
                tc_uri: opt_text(d, p1 + 1, n2),
                cups_cred: opt_bytes(d, p2 + 2, n3),
                tc_cred: opt_bytes(d, p3 + 2, n4),
                sig_key_crc: if n5 > 0 {
                    Some(le32(d, p4 + 4) as u32)
                } else {
                    None
                },
                signature: if n5 > 0 {
                    Some(d.subrange(p4 + 8, p4 + 4 + n5))
                } else {
                    None
                },
                update_data: opt_bytes(d, p5 + 4, n6),
            },
        )
    }
}

/// The one input shape on which the response reader would index past the
/// end: the CUPS URI fills the buffer exactly, leaving no byte for tcUriLen.
pub open spec fn cups_response_overruns(d: Seq<u8>) -> bool {
    d.len() >= 14 && d[0] as int + 1 == d.len()
}

/// Whether a response is one that [`parse_response`] cannot take: 14 bytes
/// or more, whose CUPS URI length reaches exactly to the end, leaving no
/// byte for the TC URI length.
pub fn response_overruns(data: &[u8]) -> (r: bool)
    ensures
        r == cups_response_overruns(data@),
{
    data.len() >= 14 && data[0] as usize + 1 == data.len()
}

fn read_le16(data: &[u8], p: usize) -> (r: usize)
    requires
        p + 2 <= data@.len(),
    ensures
        r == le16(data@, p as int),
{
    data[p] as usize + 256 * (data[p + 1] as usize)
}

fn read_le32(data: &[u8], p: usize) -> (r: u64)
    requires
        p + 4 <= data@.len(),
    ensures
        r == le32(data@, p as int),
{
    data[p] as u64 + 256 * (data[p + 1] as u64) + 65536 * (data[p + 2] as u64) + 16777216 * (
    data[p + 3] as u64)
}

fn copy_bytes(data: &[u8], p: usize, n: usize) -> (r: Option<Vec<u8>>)
    requires
        p + n <= data@.len(),
    ensures
        r.deep_view() == opt_bytes(data@, p as int, n as int),
{
    // The slice length, a usize, bounds `p + n`.
    let _len = data.len();
    if n > 0 {
        Some(slice_to_vec(slice_subrange(data, p, p + n)))
    } else {
        None
    }
}

fn copy_present(data: &[u8], p: usize, n: usize) -> (r: Option<Vec<u8>>)
    requires
        p + n <= data@.len(),
    ensures
        r.deep_view() == Some(data@.subrange(p as int, p + n)),
{
    // The slice length, a usize, bounds `p + n`.
    let _len = data.len();
    Some(slice_to_vec(slice_subrange(data, p, p + n)))
}

fn copy_text(data: &[u8], p: usize, n: usize) -> (r: Option<String>)
    requires
        p + n <= data@.len(),
    ensures
        r.deep_view() == opt_text(data@, p as int, n as int),
{
    // The slice length, a usize, bounds `p + n`.
    let _len = data.len();
    if n > 0 {
        Some(string_from_utf8_lossy(slice_subrange(data, p, p + n)))
    } else {
        None
    }
}

/// Parse the binary CUPS response.
pub fn parse_response(data: &[u8]) -> (r: Result<CupsUpdateResponse, CupsParseError>)
    requires
        !cups_response_overruns(data@),
    ensures
        match cups_parse(data@) {
            Ok(u) => r matches Ok(resp) && resp@ == u,
            Err(e) => r == Err::<CupsUpdateResponse, CupsParseError>(e),
        },
{
    let len = data.len();
    if len < 14 {
        return Err(CupsParseError::TooShort);
    }
    // CUPS URI (1-byte length prefix).

    let n1 = data[0] as usize;
    if n1 > len - 1 {
        return Err(CupsParseError::TruncatedCupsUri);
    }
    let cups_uri = copy_text(data, 1, n1);
    let p1 = 1 + n1;
    // TC URI (1-byte length prefix).
    let n2 = data[p1] as usize;
    if n2 > len - (p1 + 1) {
        return Err(CupsParseError::TruncatedTcUri);
    }
    let tc_uri = copy_text(data, p1 + 1, n2);
    let p2 = p1 + 1 + n2;
    // CUPS credentials (2-byte length prefix).
    if 2 > len - p2 {
        return Err(CupsParseError::TruncatedCupsCredLen);
    }
    let n3 = read_le16(data, p2);
    if n3 > len - (p2 + 2) {
        return Err(CupsParseError::TruncatedCupsCred);
    }
    let cups_cred = copy_bytes(data, p2 + 2, n3);
    let p3 = p2 + 2 + n3;
    // TC credentials (2-byte length prefix).
    if 2 > len - p3 {
        return Err(CupsParseError::TruncatedTcCredLen);
    }
    let n4 = read_le16(data, p3);
    if n4 > len - (p3 + 2) {
        return Err(CupsParseError::TruncatedTcCred);
    }
    let tc_cred = copy_bytes(data, p3 + 2, n4);
    let p4 = p3 + 2 + n4;
    // Signature (4-byte length prefix, includes keyCRC).
    if 4 > len - p4 {
        return Err(CupsParseError::TruncatedSigLen);
    }
    let n5 = read_le32(data, p4);
    if n5 > 0 && (n5 < 4 || n5 > (len - (p4 + 4)) as u64) {
        return Err(CupsParseError::TruncatedSig);
    }
    let n5 = n5 as usize;
    let (sig_key_crc, signature) = if n5 > 0 {
        let key_crc = read_le32(data, p4 + 4) as u32;
        (Some(key_crc), copy_present(data, p4 + 8, n5 - 4))
    } else {
        (None, None)
    };
    let p5 = p4 + 4 + n5;
    // Update data (4-byte length prefix).
    if 4 > len - p5 {
        return Err(CupsParseError::TruncatedUpdLen);
    }
    let n6 = read_le32(data, p5);
    if n6 > (len - (p5 + 4)) as u64 {
        return Err(CupsParseError::TruncatedUpdData);
    }
    let update_data = copy_bytes(data, p5 + 4, n6 as usize);
    Ok(
        CupsUpdateResponse {
            cups_uri,
            tc_uri,
            cups_cred,
            tc_cred,
            sig_key_crc,
            signature,
            update_data,
        },
    )
}

/// The update-info URL of a CUPS server: `<server>/update-info`, trailing
/// slashes of the server dropped.
pub fn update_info_url(cups_server: &str) -> (r: String)
    ensures
        r@ == trim_end_slashes(cups_server@) + "/update-info"@,
{
    endpoint_url(cups_server, "/update-info")
}

// ---------------------------------------------------------------------------
// Laws
// ---------------------------------------------------------------------------

/// A length as two little-endian bytes.
pub open spec fn le16_bytes(n: int) -> Seq<u8> {
    seq![(n % 256) as u8, (n / 256 % 256) as u8]
}

/// A length as four little-endian bytes.
pub open spec fn le32_bytes(n: int) -> Seq<u8> {
    seq![(n % 256) as u8, (n / 256 % 256) as u8, (n / 65536 % 256) as u8, (n / 16777216 % 256) as u8]
}

/// The signature field: its length, then the key CRC and the signature
/// when there is one.
pub open spec fn sig_field(sig: Option<(u32, Seq<u8>)>) -> Seq<u8> {
    match sig {
        None => le32_bytes(0),
        Some((crc, s)) => le32_bytes(s.len() + 4int) + le32_bytes(crc as int) + s,
    }
}

/// The bytes of an update response that carries the given fields.
pub open spec fn cups_frame(
    cups_uri: Seq<u8>,
    tc_uri: Seq<u8>,
    cups_cred: Seq<u8>,
    tc_cred: Seq<u8>,
    sig: Option<(u32, Seq<u8>)>,
    update_data: Seq<u8>,
) -> Seq<u8> {
    seq![cups_uri.len() as u8] + cups_uri + seq![tc_uri.len() as u8] + tc_uri + le16_bytes(
        cups_cred.len() as int,
    ) + cups_cred + le16_bytes(tc_cred.len() as int) + tc_cred + sig_field(sig) + le32_bytes(
        update_data.len() as int,
    ) + update_data
}

proof fn lemma_le16_bytes(n: int)
    requires
        0 <= n < 65536,
    ensures
        le16(le16_bytes(n), 0) == n,
{
    let b = le16_bytes(n);
    assert(b[0] as int == n % 256 && b[1] as int == n / 256 % 256);
    assert(n % 256 + 256 * (n / 256 % 256) == n) by (nonlinear_arith)
        requires
            0 <= n < 65536,
    ;
}

proof fn lemma_le32_bytes(n: int)
    requires
        0 <= n < 0x1_0000_0000,
    ensures
        le32(le32_bytes(n), 0) == n,
{
    let b = le32_bytes(n);
    assert(b[0] as int == n % 256 && b[1] as int == n / 256 % 256 && b[2] as int == n / 65536 % 256
        && b[3] as int == n / 16777216 % 256);
    assert(n % 256 + 256 * (n / 256 % 256) + 65536 * (n / 65536 % 256) + 16777216 * (n / 16777216
        % 256) == n) by (nonlinear_arith)
        requires
            0 <= n < 0x1_0000_0000,
    ;
}

/// Reading a field of `w` that sits at offset `k` of `d`.
proof fn lemma_embedded(d: Seq<u8>, k: int, w: Seq<u8>)
    requires
        0 <= k,
        k + w.len() <= d.len(),
        d.subrange(k, k + w.len()) == w,
    ensures
        w.len() >= 1 ==> d[k] == w[0],
        w.len() >= 2 ==> le16(d, k) == le16(w, 0),
        w.len() >= 4 ==> le32(d, k) == le32(w, 0),
{
    let sub = d.subrange(k, k + w.len());
    if w.len() >= 1 {
        assert(sub[0] == d[k]);
    }
    if w.len() >= 2 {
        assert(sub[1] == d[k + 1]);
    }
    if w.len() >= 4 {
        assert(sub[2] == d[k + 2] && sub[3] == d[k + 3]);
    }
}

/// A prefix of `d` made of `pre` then `piece` gives both in place.
proof fn lemma_split_prefix(d: Seq<u8>, pre: Seq<u8>, piece: Seq<u8>)
    requires
        (pre.len() + piece.len()) as int <= d.len(),
        d.subrange(0, (pre.len() + piece.len()) as int) == pre + piece,
    ensures
        d.subrange(0, pre.len() as int) == pre,
        d.subrange(pre.len() as int, (pre.len() + piece.len()) as int) == piece,
{
    let w = pre + piece;
    assert forall|i: int| 0 <= i < pre.len() implies d.subrange(0, pre.len() as int)[i] == pre[i] by {
        assert(d.subrange(0, w.len() as int)[i] == w[i]);
    }
    assert(d.subrange(0, pre.len() as int) =~= pre);
    assert forall|i: int| 0 <= i < piece.len() implies d.subrange(
        pre.len() as int,
        (pre.len() + piece.len()) as int,
    )[i] == piece[i] by {
        assert(d.subrange(0, w.len() as int)[pre.len() + i] == w[pre.len() + i]);
    }
    assert(d.subrange(pre.len() as int, (pre.len() + piece.len()) as int) =~= piece);
}

/// Where each field of a framed response lies.
proof fn lemma_frame_layout(
    cups_uri: Seq<u8>,
    tc_uri: Seq<u8>,
    cups_cred: Seq<u8>,
    tc_cred: Seq<u8>,
    sig: Option<(u32, Seq<u8>)>,
    update_data: Seq<u8>,
    trailing: Seq<u8>,
)
    ensures
        ({
            let d = cups_frame(cups_uri, tc_uri, cups_cred, tc_cred, sig, update_data) + trailing;
            let p1 = 1 + cups_uri.len() as int;
            let p2 = p1 + 1 + tc_uri.len() as int;
            let p3 = p2 + 2 + cups_cred.len() as int;
            let p4 = p3 + 2 + tc_cred.len() as int;
            let p5 = p4 + sig_field(sig).len() as int;
            &&& d.len() == p5 + 4 + update_data.len() + trailing.len()
            &&& d.subrange(0, 1) == seq![cups_uri.len() as u8]
            &&& d.subrange(1, p1) == cups_uri
            &&& d.subrange(p1, p1 + 1) == seq![tc_uri.len() as u8]
            &&& d.subrange(p1 + 1, p2) == tc_uri
            &&& d.subrange(p2, p2 + 2) == le16_bytes(cups_cred.len() as int)
            &&& d.subrange(p2 + 2, p3) == cups_cred
            &&& d.subrange(p3, p3 + 2) == le16_bytes(tc_cred.len() as int)
            &&& d.subrange(p3 + 2, p4) == tc_cred
            &&& d.subrange(p4, p5) == sig_field(sig)
            &&& d.subrange(p5, p5 + 4) == le32_bytes(update_data.len() as int)
            &&& d.subrange(p5 + 4, p5 + 4 + update_data.len()) == update_data
        }),
{
    let f1 = seq![cups_uri.len() as u8];
    let f2 = f1 + cups_uri;
    let f3 = f2 + seq![tc_uri.len() as u8];
    let f4 = f3 + tc_uri;
    let f5 = f4 + le16_bytes(cups_cred.len() as int);
    let f6 = f5 + cups_cred;
    let f7 = f6 + le16_bytes(tc_cred.len() as int);
    let f8 = f7 + tc_cred;
    let f9 = f8 + sig_field(sig);
    let f10 = f9 + le32_bytes(update_data.len() as int);
    let f11 = f10 + update_data;
    let d = f11 + trailing;
    assert(f11 == cups_frame(cups_uri, tc_uri, cups_cred, tc_cred, sig, update_data));
    assert(d.subrange(0, d.len() as int) =~= d);
    lemma_split_prefix(d, f11, trailing);
    lemma_split_prefix(d, f10, update_data);
    lemma_split_prefix(d, f9, le32_bytes(update_data.len() as int));
    lemma_split_prefix(d, f8, sig_field(sig));
    lemma_split_prefix(d, f7, tc_cred);
    lemma_split_prefix(d, f6, le16_bytes(tc_cred.len() as int));
    lemma_split_prefix(d, f5, cups_cred);
    lemma_split_prefix(d, f4, le16_bytes(cups_cred.len() as int));
    lemma_split_prefix(d, f3, tc_uri);
    lemma_split_prefix(d, f2, seq![tc_uri.len() as u8]);
    lemma_split_prefix(d, f1, cups_uri);
}

/// The signature field, when present, holds its length, the key CRC and
/// the signature, in that order.
proof fn lemma_sig_layout(d: Seq<u8>, p4: int, crc: u32, s: Seq<u8>)
    requires
        0 <= p4,
        p4 + s.len() + 8 <= d.len(),
        d.subrange(p4, p4 + s.len() + 8) == sig_field(Some((crc, s))),
    ensures
        d.subrange(p4, p4 + 4) == le32_bytes(s.len() + 4int),
        d.subrange(p4 + 4, p4 + 8) == le32_bytes(crc as int),
        d.subrange(p4 + 8, p4 + s.len() + 8) == s,
{
    let sf = sig_field(Some((crc, s)));
    assert forall|i: int| 0 <= i < 4 implies #[trigger] d.subrange(p4, p4 + 4)[i] == le32_bytes(s.len() + 4int)[i] by {
        assert(d.subrange(p4, p4 + s.len() + 8)[i] == sf[i]);
    }
    assert(d.subrange(p4, p4 + 4) =~= le32_bytes(s.len() + 4int));
    assert forall|i: int| 0 <= i < 4 implies #[trigger] d.subrange(p4 + 4, p4 + 8)[i] == le32_bytes(crc as int)[i] by {
        assert(d.subrange(p4, p4 + s.len() + 8)[4 + i] == sf[4 + i]);
    }
    assert(d.subrange(p4 + 4, p4 + 8) =~= le32_bytes(crc as int));
    assert forall|i: int| 0 <= i < s.len() implies #[trigger] d.subrange(p4 + 8, p4 + s.len() + 8)[i] == s[i] by {
        assert(d.subrange(p4, p4 + s.len() + 8)[8 + i] == sf[8 + i]);
    }
    assert(d.subrange(p4 + 8, p4 + s.len() + 8) =~= s);
}

/// The lengths and values a reader finds in a framed response.
proof fn lemma_frame_fields(
    cups_uri: Seq<u8>,
    tc_uri: Seq<u8>,
    cups_cred: Seq<u8>,
    tc_cred: Seq<u8>,
    sig: Option<(u32, Seq<u8>)>,
    update_data: Seq<u8>,
    trailing: Seq<u8>,
)
    requires
        cups_uri.len() < 256,
        tc_uri.len() < 256,
        cups_cred.len() < 65536,
        tc_cred.len() < 65536,
        sig matches Some((_, s)) ==> s.len() + 4 < 0x1_0000_0000,
        update_data.len() < 0x1_0000_0000,
    ensures
        ({
            let d = cups_frame(cups_uri, tc_uri, cups_cred, tc_cred, sig, update_data) + trailing;
            let p1 = 1 + cups_uri.len() as int;
            let p2 = p1 + 1 + tc_uri.len() as int;
            let p3 = p2 + 2 + cups_cred.len() as int;
            let p4 = p3 + 2 + tc_cred.len() as int;
            let p5 = p4 + sig_field(sig).len() as int;
            &&& d.len() == p5 + 4 + update_data.len() + trailing.len()
            &&& d[0] as int == cups_uri.len()
            &&& d[p1] as int == tc_uri.len()
            &&& le16(d, p2) == cups_cred.len()
            &&& le16(d, p3) == tc_cred.len()
            &&& le32(d, p5) == update_data.len()
            &&& d.subrange(1, p1) == cups_uri
            &&& d.subrange(p1 + 1, p2) == tc_uri
            &&& d.subrange(p2 + 2, p3) == cups_cred
            &&& d.subrange(p3 + 2, p4) == tc_cred
            &&& d.subrange(p5 + 4, p5 + 4 + update_data.len()) == update_data
            &&& match sig {
                None => le32(d, p4) == 0 && p5 == p4 + 4,
                Some((crc, s)) => le32(d, p4) == s.len() + 4 && p5 == p4 + 8 + s.len() && le32(d, p4 + 4)
                    == crc && d.subrange(p4 + 8, p5) == s,
            }
        }),
{
    let d = cups_frame(cups_uri, tc_uri, cups_cred, tc_cred, sig, update_data) + trailing;
    let n1 = cups_uri.len() as int;
    let n2 = tc_uri.len() as int;
    let n3 = cups_cred.len() as int;
    let n4 = tc_cred.len() as int;
    let n6 = update_data.len() as int;
    let p1 = 1 + n1;
    let p2 = p1 + 1 + n2;
    let p3 = p2 + 2 + n3;
    let p4 = p3 + 2 + n4;
    let p5 = p4 + sig_field(sig).len() as int;
    lemma_frame_layout(cups_uri, tc_uri, cups_cred, tc_cred, sig, update_data, trailing);
    lemma_embedded(d, 0, seq![n1 as u8]);
    lemma_embedded(d, p1, seq![n2 as u8]);
    lemma_embedded(d, p2, le16_bytes(n3));
    lemma_embedded(d, p3, le16_bytes(n4));
    lemma_embedded(d, p5, le32_bytes(n6));
    lemma_le16_bytes(n3);
    lemma_le16_bytes(n4);
    lemma_le32_bytes(n6);
    match sig {
        None => {
            lemma_embedded(d, p4, le32_bytes(0));
            lemma_le32_bytes(0);
        },
        Some((crc, s)) => {
            lemma_sig_layout(d, p4, crc, s);
            lemma_embedded(d, p4, le32_bytes(s.len() + 4int));
            lemma_embedded(d, p4 + 4, le32_bytes(crc as int));
            lemma_le32_bytes(s.len() + 4int);
            lemma_le32_bytes(crc as int);
        },
    }
}

/// Whatever fields a response is framed with, reading it gives those
/// fields back: each URI as the (lossy) text of its bytes and each other
/// field as its bytes, a zero-length field as nothing (the signature field
/// is present exactly when a key CRC was framed), whatever bytes follow the
/// update data. Such a response is never one that the reader refuses to
/// take.
pub proof fn law_framed_response_parses_back(
    cups_uri: Seq<u8>,
    tc_uri: Seq<u8>,
    cups_cred: Seq<u8>,
    tc_cred: Seq<u8>,
    sig: Option<(u32, Seq<u8>)>,
    update_data: Seq<u8>,
    trailing: Seq<u8>,
)
    requires
        cups_uri.len() < 256,
        tc_uri.len() < 256,
        cups_cred.len() < 65536,
        tc_cred.len() < 65536,
        sig matches Some((_, s)) ==> s.len() + 4 < 0x1_0000_0000,
        update_data.len() < 0x1_0000_0000,
    ensures
        ({
            let d = cups_frame(cups_uri, tc_uri, cups_cred, tc_cred, sig, update_data) + trailing;
            &&& !cups_response_overruns(d)
            &&& cups_parse(d) == Ok::<CupsUpdate, CupsParseError>(
                CupsUpdate {
                    cups_uri: if cups_uri.len() > 0 {
                        Some(lossy_text(cups_uri))
                    } else {
                        None
                    },
                    tc_uri: if tc_uri.len() > 0 {
                        Some(lossy_text(tc_uri))
                    } else {
                        None
                    },
                    cups_cred: if cups_cred.len() > 0 {
                        Some(cups_cred)
                    } else {
                        None
                    },
                    tc_cred: if tc_cred.len() > 0 {
                        Some(tc_cred)
                    } else {
                        None
                    },
                    sig_key_crc: match sig {
                        Some((crc, _)) => Some(crc),
                        None => None,
                    },
                    signature: match sig {
                        Some((_, s)) => Some(s),
                        None => None,
                    },
                    update_data: if update_data.len() > 0 {
                        Some(update_data)
                    } else {
                        None
                    },
                },
            )
        }),
{
    lemma_frame_fields(cups_uri, tc_uri, cups_cred, tc_cred, sig, update_data, trailing);
}

} // verus!
