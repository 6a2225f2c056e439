//! The route dispatcher: translates an inbound HTTP request — method, path
//! segments, and declared body length — into exactly one gateway operation,
//! or into a client-visible refusal. Body-size limits are enforced here,
//! on the length alone, before any body is parsed; an oversized body is a
//! hard rejection, never a truncation.

use vstd::prelude::*;
use vstd::string::StrSliceExecFns;
use vstd::string::StringExecFns;

verus! {

/// Largest body accepted by the membership-path query.
pub const STATE_PATH_BODY_LIMIT: usize = 128;

/// Largest body accepted by the all-records query.
pub const RECORDS_ALL_BODY_LIMIT: usize = 256;

/// Largest body accepted by the spent-records query.
pub const RECORDS_SPENT_BODY_LIMIT: usize = 256;

/// Largest body accepted by the unspent-records query.
pub const RECORDS_UNSPENT_BODY_LIMIT: usize = 128;

/// Largest body accepted by the transaction broadcast.
pub const BROADCAST_BODY_LIMIT: usize = 10 * 1024 * 1024;

/// The HTTP methods the gateway recognizes.
#[derive(Clone, Copy, PartialEq, Eq, Structural, Debug)]
pub enum HttpMethod {
    Get,
    Post,
}

/// The operations the gateway performs, one per recognized request.
#[derive(Clone, Copy, PartialEq, Eq, Structural, Debug)]
pub enum Route {
    /// Read the height of the chain tip.
    LatestHeight,
    /// Read the hash of the chain tip.
    LatestHash,
    /// Read the block at the chain tip.
    LatestBlock,
    /// Read the block at this height.
    BlockByHeight { height: u32 },
    /// Read the membership path for the commitment named in the body.
    StatePath,
    /// Scan every record visible to the view key named in the body.
    RecordsAll,
    /// Scan the spent records for the keys named in the body.
    RecordsSpent,
    /// Scan the unspent records for the keys named in the body.
    RecordsUnspent,
    /// Enqueue the transaction carried in the body.
    TransactionBroadcast,
}

/// Why a request was refused without reaching the ledger.
#[derive(Clone, Copy, PartialEq, Eq, Structural, Debug)]
pub enum DispatchError {
    /// No recognized operation has this method and path.
    NotFound,
    /// The path is recognized but the body exceeds the route's limit.
    PayloadTooLarge,
}

/// Whether the character is a decimal digit.
pub open spec fn is_digit(c: char) -> bool {
    48 <= c as u32 <= 57
}

/// The value of a decimal digit character.
pub open spec fn digit_val(c: char) -> int {
    c as u32 - 48
}

/// Whether every character of the sequence is a decimal digit.
pub open spec fn all_digits(s: Seq<char>) -> bool {
    forall|i: int| 0 <= i < s.len() ==> is_digit(#[trigger] s[i])
}

/// The number the digit sequence denotes, most significant digit first.
pub open spec fn digits_value(s: Seq<char>) -> int
    decreases s.len(),
{
    if s.len() == 0 {
        0
    } else {
        digits_value(s.drop_last()) * 10 + digit_val(s.last())
    }
}

/// How a path segment reads as an unsigned 32-bit height: it must be
/// nonempty, all digits, and denote a value that fits.
pub open spec fn spec_parse_u32(s: Seq<char>) -> Option<u32> {
    if s.len() > 0 && all_digits(s) && digits_value(s) <= u32::MAX {
        Some(digits_value(s) as u32)
    } else {
        None
    }
}

/// A digit sequence denotes a nonnegative number.
proof fn lemma_digits_nonneg(s: Seq<char>)
    requires
        all_digits(s),
    ensures
        digits_value(s) >= 0,
    decreases s.len(),
{
    if s.len() > 0 {
        assert(is_digit(s.last()));
        lemma_digits_nonneg(s.drop_last());
    }
}

/// Extending a digit sequence never shrinks its value: the value of a
/// prefix bounds the value of the whole from below.
proof fn lemma_digits_prefix_le(s: Seq<char>, i: int)
    requires
        all_digits(s),
        0 <= i <= s.len(),
    ensures
        digits_value(s.subrange(0, i)) <= digits_value(s),
    decreases s.len() - i,
{
    if i == s.len() {
        assert(s.subrange(0, i) =~= s);
    } else {
        lemma_digits_prefix_le(s, i + 1);
        let p = s.subrange(0, i);
        let q = s.subrange(0, i + 1);
        assert(q.drop_last() =~= p);
        assert(all_digits(p));
        lemma_digits_nonneg(p);
        assert(is_digit(s[i]));
        assert(digits_value(q) == digits_value(p) * 10 + digit_val(s[i]));
        assert(digits_value(p) * 10 >= digits_value(p));
    }
}

/// Reads a path segment as an unsigned 32-bit height, exactly as the
/// dispatcher's specification does: nonempty, all digits, value in range,
/// or nothing.
pub fn parse_u32(s: &String) -> (r: Option<u32>)
    ensures
        r == spec_parse_u32(s@),
{
    let n = s.as_str().unicode_len();
    if n == 0 {
        return None;
    }
    let mut acc: u64 = 0;
    let mut i: usize = 0;
    while i < n
        invariant
            n as nat == s@.len(),
            0 <= i <= n,
            acc <= u32::MAX,
            acc == digits_value(s@.subrange(0, i as int)),
            forall|j: int| 0 <= j < i ==> is_digit(#[trigger] s@[j]),
        decreases n - i,
    {
        let c = s.as_str().get_char(i);
        let cv = c as u32;
        if cv < 48 || cv > 57 {
            assert(!is_digit(s@[i as int]));
            return None;
        }
        let d = (cv - 48) as u64;
        let next = acc * 10 + d;
        proof {
            let p = s@.subrange(0, i as int);
            let q = s@.subrange(0, i as int + 1);
            assert(q.drop_last() =~= p);
            assert(q.last() == s@[i as int]);
        }
        if next > u32::MAX as u64 {
            proof {
                if all_digits(s@) {
                    lemma_digits_prefix_le(s@, i as int + 1);
                }
            }
            return None;
        }
        acc = next;
        i = i + 1;
    }
    proof {
        assert(s@.subrange(0, n as int) =~= s@);
    }
    Some(acc as u32)
}

/// The route table: which operation, if any, a request resolves to.
/// A recognized path whose body exceeds the route's limit is refused as
/// too large before anything is parsed; everything else unrecognized is
/// not found. The reads answer to GET, the broadcast to POST, all under
/// the fixed network prefix.
pub open spec fn route_of(method: HttpMethod, segs: Seq<Seq<char>>, body_len: nat) -> Result<
    Route,
    DispatchError,
> {
    if segs.len() == 3 && segs[0] == "testnet3"@ && segs[1] == "latest"@ && segs[2] == "height"@
        && method is Get {
        Ok(Route::LatestHeight)
    } else if segs.len() == 3 && segs[0] == "testnet3"@ && segs[1] == "latest"@ && segs[2]
        == "hash"@ && method is Get {
        Ok(Route::LatestHash)
    } else if segs.len() == 3 && segs[0] == "testnet3"@ && segs[1] == "latest"@ && segs[2]
        == "block"@ && method is Get {
        Ok(Route::LatestBlock)
    } else if segs.len() == 3 && segs[0] == "testnet3"@ && segs[1] == "block"@ && method is Get
        && spec_parse_u32(segs[2]) is Some {
        Ok(Route::BlockByHeight { height: spec_parse_u32(segs[2]).unwrap() })
    } else if segs.len() == 2 && segs[0] == "testnet3"@ && segs[1] == "statePath"@
        && method is Get {
        if body_len <= STATE_PATH_BODY_LIMIT {
            Ok(Route::StatePath)
        } else {
            Err(DispatchError::PayloadTooLarge)
        }
    } else if segs.len() == 3 && segs[0] == "testnet3"@ && segs[1] == "records"@ && segs[2]
        == "all"@ && method is Get {
        if body_len <= RECORDS_ALL_BODY_LIMIT {
            Ok(Route::RecordsAll)
        } else {
            Err(DispatchError::PayloadTooLarge)
        }
    } else if segs.len() == 3 && segs[0] == "testnet3"@ && segs[1] == "records"@ && segs[2]
        == "spent"@ && method is Get {
        if body_len <= RECORDS_SPENT_BODY_LIMIT {
            Ok(Route::RecordsSpent)
        } else {
            Err(DispatchError::PayloadTooLarge)
        }
    } else if segs.len() == 3 && segs[0] == "testnet3"@ && segs[1] == "records"@ && segs[2]
        == "unspent"@ && method is Get {
        if body_len <= RECORDS_UNSPENT_BODY_LIMIT {
            Ok(Route::RecordsUnspent)
        } else {
            Err(DispatchError::PayloadTooLarge)
        }
    } else if segs.len() == 3 && segs[0] == "testnet3"@ && segs[1] == "transaction"@ && segs[2]
        == "broadcast"@ && method is Post {
        if body_len <= BROADCAST_BODY_LIMIT {
            Ok(Route::TransactionBroadcast)
        } else {
            Err(DispatchError::PayloadTooLarge)
        }
    } else {
        Err(DispatchError::NotFound)
    }
}

/// Whether the string equals the literal.
pub(crate) fn seg_is(s: &String, lit: &str) -> (b: bool)
    ensures
        b == (s@ == lit@),
{
    let other: String = lit.to_owned();
    *s == other
}

/// Resolves a request to the one operation it names, per the route table.
/// The decision reads only the method, the path segments and the body's
/// length: no body is parsed here, so an oversized body is rejected before
/// any parsing anywhere.
pub fn dispatch(method: HttpMethod, segments: &Vec<String>, body_len: usize) -> (r: Result<
    Route,
    DispatchError,
>)
    ensures
        r == route_of(method, segments.deep_view(), body_len as nat),
{
    proof {
        reveal_strlit("testnet3");
        reveal_strlit("latest");
        reveal_strlit("height");
        reveal_strlit("hash");
        reveal_strlit("block");
        reveal_strlit("statePath");
        reveal_strlit("records");
        reveal_strlit("all");
        reveal_strlit("spent");
        reveal_strlit("unspent");
        reveal_strlit("transaction");
        reveal_strlit("broadcast");
        assert("testnet3"@.len() == 8);
        assert("latest"@.len() == 6);
        assert("block"@.len() == 5);
        assert("records"@.len() == 7);
        assert("transaction"@.len() == 11);
        assert("statePath"@.len() == 9);
    }
    let n = segments.len();
    if n == 2 {
        if seg_is(&segments[0], "testnet3") && seg_is(&segments[1], "statePath") && method
            == HttpMethod::Get {
            if body_len <= STATE_PATH_BODY_LIMIT {
                Ok(Route::StatePath)
            } else {
                Err(DispatchError::PayloadTooLarge)
            }
        } else {
            Err(DispatchError::NotFound)
        }
    } else if n == 3 {
        if !seg_is(&segments[0], "testnet3") {
            return Err(DispatchError::NotFound);
        }
        if seg_is(&segments[1], "latest") && method == HttpMethod::Get {
            if seg_is(&segments[2], "height") {
                return Ok(Route::LatestHeight);
            }
            if seg_is(&segments[2], "hash") {
                return Ok(Route::LatestHash);
            }
            if seg_is(&segments[2], "block") {
                return Ok(Route::LatestBlock);
            }
            return Err(DispatchError::NotFound);
        }
        if seg_is(&segments[1], "block") && method == HttpMethod::Get {
            match parse_u32(&segments[2]) {
                Some(height) => {
                    return Ok(Route::BlockByHeight { height });
                },
                None => {
                    return Err(DispatchError::NotFound);
                },
            }
        }
        if seg_is(&segments[1], "records") && method == HttpMethod::Get {
            if seg_is(&segments[2], "all") {
                if body_len <= RECORDS_ALL_BODY_LIMIT {
                    return Ok(Route::RecordsAll);
                } else {
                    return Err(DispatchError::PayloadTooLarge);
                }
            }
            if seg_is(&segments[2], "spent") {
                if body_len <= RECORDS_SPENT_BODY_LIMIT {
                    return Ok(Route::RecordsSpent);
                } else {
                    return Err(DispatchError::PayloadTooLarge);
                }
            }
            if seg_is(&segments[2], "unspent") {
                if body_len <= RECORDS_UNSPENT_BODY_LIMIT {
                    return Ok(Route::RecordsUnspent);
                } else {
                    return Err(DispatchError::PayloadTooLarge);
                }
            }
            return Err(DispatchError::NotFound);
        }
        if seg_is(&segments[1], "transaction") && seg_is(&segments[2], "broadcast") && method
            == HttpMethod::Post {
            if body_len <= BROADCAST_BODY_LIMIT {
                return Ok(Route::TransactionBroadcast);
            } else {
                return Err(DispatchError::PayloadTooLarge);
            }
        }
        Err(DispatchError::NotFound)
    } else {
        Err(DispatchError::NotFound)
    }
}

} // verus!
