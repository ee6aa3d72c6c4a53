//! PEM armour: the Base64 body of a PEM document, decoded to DER.

use vstd::prelude::*;
use base64::Engine;
use vstd::string::StringSliceAdditionalSpecFns;

verus! {

/// Why Base64 decoding failed (the variants of `base64::DecodeError`).
#[derive(Debug, Clone, Copy, PartialEq, Eq, Structural)]
pub enum Base64Error {
    /// An invalid byte at the given offset.
    InvalidByte(usize, u8),
    /// The number of valid symbols is invalid.
    InvalidLength(usize),
    /// The last symbol, at the given offset, has discarded non-zero bits.
    InvalidLastSymbol(usize, u8),
    /// Padding absent or not canonical.
    InvalidPadding,
}

/// What decoding `input` with the standard Base64 alphabet and canonical
/// padding yields (the `base64` crate's `general_purpose::STANDARD` engine).
pub uninterp spec fn base64_standard_decoding(input: Seq<u8>) -> Result<Seq<u8>, Base64Error>;

/// Calls `base64::engine::general_purpose::STANDARD.decode` on `input`.
/// The result is stated only through the name `base64_standard_decoding`
/// applied to the input bytes: decoded bytes on success, the error otherwise.
#[verifier::external_body]
fn decode_base64_standard(input: &[u8]) -> (r: Result<Vec<u8>, Base64Error>)
    ensures
        match r {
            Ok(v) => base64_standard_decoding(input@) == Ok::<Seq<u8>, Base64Error>(v@),
            Err(e) => base64_standard_decoding(input@) == Err::<Seq<u8>, Base64Error>(e),
        },
{
    match base64::engine::general_purpose::STANDARD.decode(input) {
        Ok(v) => Ok(v),
        Err(base64::DecodeError::InvalidByte(i, b)) => Err(Base64Error::InvalidByte(i, b)),
        Err(base64::DecodeError::InvalidLength(n)) => Err(Base64Error::InvalidLength(n)),
        Err(base64::DecodeError::InvalidLastSymbol(i, b)) => Err(Base64Error::InvalidLastSymbol(i, b)),
        Err(base64::DecodeError::InvalidPadding) => Err(Base64Error::InvalidPadding),
    }
}

/// ASCII line feed.
pub const LF: u8 = 0x0a;
/// ASCII carriage return.
pub const CR: u8 = 0x0d;
/// ASCII hyphen-minus.
pub const DASH: u8 = 0x2d;

/// What the line `b[start..end]` adds to the body: nothing for a boundary
/// line; otherwise the line itself, without the carriage return of a
/// "\r\n" ending (as `str::lines` yields it).
pub open spec fn line_contribution(b: Seq<u8>, start: int, end: int, terminated: bool) -> Seq<u8> {
    let raw = b.subrange(start, end);
    let line = if terminated && raw.len() > 0 && raw.last() == CR {
        raw.drop_last()
    } else {
        raw
    };
    if is_boundary_line(line) {
        Seq::empty()
    } else {
        line
    }
}

/// Whether a line starts with five dashes (a BEGIN or END boundary).
pub open spec fn is_boundary_line(line: Seq<u8>) -> bool {
    line.len() >= 5 && line[0] == DASH && line[1] == DASH && line[2] == DASH && line[3] == DASH
        && line[4] == DASH
}

/// The body collected from position `i` on, where the current line began
/// at `start`: each line feed ends a line, and the end of the input ends the
/// last one.
pub open spec fn pem_body_scan(b: Seq<u8>, start: int, i: int) -> Seq<u8>
    decreases b.len() - i,
{
    if i >= b.len() {
        line_contribution(b, start, b.len() as int, false)
    } else if b[i] == LF {
        line_contribution(b, start, i, true) + pem_body_scan(b, i + 1, i + 1)
    } else {
        pem_body_scan(b, start, i + 1)
    }
}

/// The Base64 body of a PEM document: its lines other than the boundary
/// lines, joined without separators.
pub open spec fn pem_body(b: Seq<u8>) -> Seq<u8> {
    pem_body_scan(b, 0, 0)
}

/// Collects the Base64 body of the PEM document whose bytes are `b`.
pub fn pem_body_bytes(b: &[u8]) -> (out: Vec<u8>)
    ensures
        out@ == pem_body(b@),
{
    let mut out: Vec<u8> = Vec::new();
    let mut pos: usize = 0;
    while pos < b.len()
        invariant
            pos <= b.len(),
            out@ + pem_body_scan(b@, pos as int, pos as int) == pem_body(b@),
        decreases b.len() - pos,
    {
        let mut e: usize = pos;
        while e < b.len() && b[e] != LF
            invariant
                pos <= e <= b.len(),
                pem_body_scan(b@, pos as int, pos as int) == pem_body_scan(b@, pos as int, e as int),
            decreases b.len() - e,
        {
            e = e + 1;
        }
        let terminated = e < b.len();
        let mut end: usize = e;
        if terminated && end > pos && b[end - 1] == CR {
            end = end - 1;
        }
        let ghost raw = b@.subrange(pos as int, e as int);
        let ghost line = if terminated && raw.len() > 0 && raw.last() == CR {
            raw.drop_last()
        } else {
            raw
        };
        proof {
            assert(line =~= b@.subrange(pos as int, end as int));
        }
        let boundary = end - pos >= 5 && b[pos] == DASH && b[pos + 1] == DASH && b[pos + 2] == DASH
            && b[pos + 3] == DASH && b[pos + 4] == DASH;
        proof {
            assert(boundary == is_boundary_line(line));
        }
        let ghost before = out@;
        if !boundary {
            let mut k: usize = pos;
            while k < end
                invariant
                    pos <= k <= end,
                    end <= b.len(),
                    out@ == before + b@.subrange(pos as int, k as int),
                decreases end - k,
            {
                out.push(b[k]);
                k = k + 1;
                proof {
                    assert(b@.subrange(pos as int, k as int) =~= b@.subrange(pos as int, k - 1).push(
                        b@[k - 1],
                    ));
                }
            }
        }
        let ghost kept = line_contribution(b@, pos as int, e as int, terminated);
        proof {
            assert(out@ =~= before + kept);
        }
        if terminated {
            proof {
                assert(pem_body_scan(b@, pos as int, e as int) == kept + pem_body_scan(
                    b@,
                    e + 1,
                    e + 1,
                ));
                assert((before + kept) + pem_body_scan(b@, e + 1, e + 1) =~= before + (kept
                    + pem_body_scan(b@, e + 1, e + 1)));
            }
            pos = e + 1;
        } else {
            proof {
                assert(pem_body_scan(b@, pos as int, e as int) == kept);
                assert(pem_body_scan(b@, e as int, e as int) == line_contribution(
                    b@,
                    e as int,
                    e as int,
                    false,
                ));
                assert(b@.subrange(e as int, e as int) =~= Seq::<u8>::empty());
                assert(before + kept =~= (before + kept) + pem_body_scan(b@, e as int, e as int));
            }
            pos = e;
        }
    }
    proof {
        assert(pem_body_scan(b@, pos as int, pos as int) == line_contribution(
            b@,
            pos as int,
            pos as int,
            false,
        ));
        assert(b@.subrange(pos as int, pos as int) =~= Seq::<u8>::empty());
        assert(out@ + pem_body_scan(b@, pos as int, pos as int) =~= out@);
    }
    out
}

/// Decodes a PEM document to DER: the Base64 body (all lines but those that
/// start with five dashes, joined) decoded with the standard alphabet.
pub fn pem_to_der(pem: &str) -> (r: Result<Vec<u8>, Base64Error>)
    ensures
        match r {
            Ok(der) => base64_standard_decoding(pem_body(pem.spec_bytes())) == Ok::<
                Seq<u8>,
                Base64Error,
            >(der@),
            Err(e) => base64_standard_decoding(pem_body(pem.spec_bytes())) == Err::<
                Seq<u8>,
                Base64Error,
            >(e),
        },
{
    let body = pem_body_bytes(pem.as_bytes());
    decode_base64_standard(body.as_slice())
}

} // verus!
