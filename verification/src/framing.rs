//! Checks at the message-codec edge, on plain values: the declared content
//! length as a number, the body's completeness against it, and the
//! client-address-forwarding header value. The codec and the sockets hand
//! these functions bytes and counts; every rule here is the library's own.

use vstd::prelude::*;

use vstd::string::StringExecFns;

use crate::relay::ParseError;

verus! {

/// An ASCII decimal digit.
pub open spec fn is_ascii_digit(b: u8) -> bool {
    48 <= b <= 57
}

/// The number the digits spell, most significant first.
pub open spec fn dec_value(s: Seq<u8>) -> nat
    decreases s.len(),
{
    if s.len() == 0 {
        0
    } else {
        dec_value(s.drop_last()) * 10 + (if s.last() >= 48 {
            (s.last() - 48) as nat
        } else {
            0
        })
    }
}

/// A longer digit prefix never spells a smaller number.
proof fn lemma_dec_value_monotone(s: Seq<u8>, i: int, j: int)
    requires
        0 <= i <= j <= s.len(),
    ensures
        dec_value(s.subrange(0, i)) <= dec_value(s.subrange(0, j)),
    decreases j - i,
{
    if i < j {
        lemma_dec_value_monotone(s, i, j - 1);
        assert(s.subrange(0, j).drop_last() =~= s.subrange(0, j - 1));
        let prev = dec_value(s.subrange(0, j - 1));
        assert(dec_value(s.subrange(0, j)) >= prev * 10);
        assert(prev * 10 >= prev) by {
            assert(prev * 10 - prev == 9 * prev) by (nonlinear_arith);
        }
    }
}

/// Whether a content-length header value is a well-formed length the proxy
/// can hold: non-empty, digits only, and within `usize`.
pub open spec fn valid_content_length(s: Seq<u8>) -> bool {
    &&& s.len() > 0
    &&& forall|i: int| 0 <= i < s.len() ==> is_ascii_digit(#[trigger] s[i])
    &&& dec_value(s) <= usize::MAX
}

/// Reads a declared content length. Succeeds exactly on a non-empty string
/// of decimal digits whose value fits the machine; anything else — empty,
/// a sign, spaces, letters, or a value out of range — is
/// `InvalidContentLength`.
pub fn parse_content_length(bytes: &Vec<u8>) -> (r: Result<usize, ParseError>)
    ensures
        valid_content_length(bytes@) ==> r == Ok::<usize, ParseError>(
            dec_value(bytes@) as usize,
        ),
        !valid_content_length(bytes@) ==> r == Err::<usize, ParseError>(
            ParseError::InvalidContentLength,
        ),
{
    if bytes.len() == 0 {
        return Err(ParseError::InvalidContentLength);
    }
    let mut val: usize = 0;
    let mut idx: usize = 0;
    while idx < bytes.len()
        invariant
            idx <= bytes@.len(),
            forall|i: int| 0 <= i < idx ==> is_ascii_digit(#[trigger] bytes@[i]),
            val == dec_value(bytes@.subrange(0, idx as int)),
        decreases bytes@.len() - idx,
    {
        let ghost prefix = bytes@.subrange(0, idx as int);
        let b = bytes[idx];
        if b < 48 || b > 57 {
            return Err(ParseError::InvalidContentLength);
        }
        let d = (b - 48) as usize;
        proof {
            assert(bytes@.subrange(0, idx as int + 1).drop_last() =~= prefix);
            assert(bytes@.subrange(0, idx as int + 1).last() == bytes@[idx as int]);
        }
        if val > (usize::MAX - d) / 10 {
            proof {
                let next = bytes@.subrange(0, idx as int + 1);
                assert(dec_value(next) == val * 10 + d);
                assert(val >= (usize::MAX - d) / 10 + 1);
                assert(val * 10 >= ((usize::MAX - d) / 10 + 1) * 10) by (nonlinear_arith)
                    requires
                        val >= (usize::MAX - d) / 10 + 1,
                ;
                assert(((usize::MAX - d) / 10 + 1) * 10 == ((usize::MAX - d) / 10) * 10 + 10);
                assert(((usize::MAX - d) / 10) * 10 + 10 > usize::MAX - d) by (nonlinear_arith);
                assert(dec_value(next) > usize::MAX);
                lemma_dec_value_monotone(bytes@, idx as int + 1, bytes@.len() as int);
                assert(bytes@.subrange(0, bytes@.len() as int) =~= bytes@);
            }
            return Err(ParseError::InvalidContentLength);
        }
        proof {
            assert(val <= (usize::MAX - d) / 10);
            assert(val * 10 <= ((usize::MAX - d) / 10) * 10) by (nonlinear_arith)
                requires
                    val <= (usize::MAX - d) / 10,
            ;
            assert(((usize::MAX - d) / 10) * 10 <= usize::MAX - d) by (nonlinear_arith);
        }
        val = val * 10 + d;
        idx += 1;
    }
    proof {
        assert(bytes@.subrange(0, bytes@.len() as int) =~= bytes@);
    }
    Ok(val)
}

/// How far a request body has come against its declared content length.
#[derive(Clone, Copy, Debug, PartialEq, Eq, Structural)]
pub enum BodyProgress {
    /// Exactly the declared number of bytes has arrived.
    Complete,
    /// Fewer bytes than declared, and the stream is still open.
    AwaitingMore,
}

/// The body-completeness rule: a declaration over the proxy's limit is
/// `RequestBodyTooLarge`; more bytes than declared is
/// `ContentLengthMismatch`; exactly as declared is complete; fewer with the
/// stream closed is `IncompleteRequest` carrying what arrived; fewer with the
/// stream open means keep reading.
pub open spec fn spec_check_body(
    declared: usize,
    max_size: usize,
    received: usize,
    eof: bool,
) -> Result<BodyProgress, ParseError> {
    if declared > max_size {
        Err(ParseError::RequestBodyTooLarge)
    } else if received > declared {
        Err(ParseError::ContentLengthMismatch)
    } else if received == declared {
        Ok(BodyProgress::Complete)
    } else if eof {
        Err(ParseError::IncompleteRequest(received))
    } else {
        Ok(BodyProgress::AwaitingMore)
    }
}

/// Checks a body's progress: `declared` is the content length the client
/// announced, `max_size` the largest body the proxy accepts, `received` how
/// many body bytes have arrived, and `eof` whether the client closed the
/// stream.
pub fn check_body(declared: usize, max_size: usize, received: usize, eof: bool) -> (r: Result<
    BodyProgress,
    ParseError,
>)
    ensures
        r == spec_check_body(declared, max_size, received, eof),
{
    if declared > max_size {
        Err(ParseError::RequestBodyTooLarge)
    } else if received > declared {
        Err(ParseError::ContentLengthMismatch)
    } else if received == declared {
        Ok(BodyProgress::Complete)
    } else if eof {
        Err(ParseError::IncompleteRequest(received))
    } else {
        Ok(BodyProgress::AwaitingMore)
    }
}

/// The client-address-forwarding header value after this proxy: the address
/// is appended after the existing value, never in its place.
pub open spec fn spec_extended_header_value(existing: Option<Seq<char>>, addr: Seq<char>) -> Seq<
    char,
> {
    match existing {
        Some(prior) => prior + ", "@ + addr,
        None => addr,
    }
}

/// Extends a client-address-forwarding header: with no prior value the
/// client's address stands alone; a prior value is kept and the address
/// appended after a comma.
pub fn extend_header_value(existing: Option<&str>, addr: &str) -> (r: String)
    ensures
        r@ == spec_extended_header_value(
            match existing {
                Some(s) => Some(s@),
                None => None,
            },
            addr@,
        ),
{
    match existing {
        Some(prior) => {
            let mut out = String::from_str(prior);
            out.append(", ");
            out.append(addr);
            out
        },
        None => String::from_str(addr),
    }
}

} // verus!
