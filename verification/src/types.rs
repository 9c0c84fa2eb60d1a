//! Request, response and event types of the simulation protocol that carry
//! plain data, and the rules that sort contract events into categories. The
//! surrounding process extracts each event's type and first topic as strings
//! and hands them in; the categorization itself is pure string logic.

use vstd::prelude::*;

verus! {

/// Calibration constants for resource metering.
#[derive(Debug, Clone)]
pub struct ResourceCalibration {
    pub sha256_fixed: u64,
    pub sha256_per_byte: u64,
    pub keccak256_fixed: u64,
    pub keccak256_per_byte: u64,
    pub ed25519_fixed: u64,
}

/// One diagnostic event of a simulated invocation.
#[derive(Debug)]
pub struct DiagnosticEvent {
    pub event_type: String,
    pub contract_id: Option<String>,
    pub topics: Vec<String>,
    pub data: String,
    pub in_successful_contract_call: bool,
    pub wasm_instruction: Option<String>,
}

/// A diagnostic event together with the category it was sorted into.
#[derive(Debug)]
pub struct CategorizedEvent {
    pub category: String,
    pub event: DiagnosticEvent,
}

/// A structured error reported to the caller.
#[derive(Debug, Clone)]
pub struct StructuredError {
    pub error_type: String,
    pub message: String,
    pub details: Option<String>,
}

/// Whether `needle` occurs contiguously anywhere in `haystack`.
pub open spec fn spec_contains(haystack: Seq<char>, needle: Seq<char>) -> bool {
    exists|k: int|
        0 <= k <= haystack.len() - needle.len() && #[trigger] haystack.subrange(k, k + needle.len())
            == needle
}

/// Whether `needle` occurs in `haystack` starting at `k`.
#[verifier::loop_isolation(false)]
fn matches_at(haystack: &str, needle: &str, k: usize, hlen: usize, nlen: usize) -> (r: bool)
    requires
        hlen == haystack@.len(),
        nlen == needle@.len(),
        k + nlen <= hlen,
    ensures
        r == (haystack@.subrange(k as int, k + needle@.len()) == needle@),
{
    let mut j: usize = 0;
    while j < nlen
        invariant
            j <= nlen,
            forall|t: int| 0 <= t < j ==> haystack@[k + t] == needle@[t],
        decreases nlen - j,
    {
        if haystack.get_char(k + j) != needle.get_char(j) {
            proof {
                assert(haystack@.subrange(k as int, k + needle@.len())[j as int] == haystack@[k
                    + j]);
            }
            return false;
        }
        j = j + 1;
    }
    proof {
        assert(haystack@.subrange(k as int, k + needle@.len()) =~= needle@);
    }
    true
}

/// Whether `needle` occurs contiguously anywhere in `haystack`.
#[verifier::loop_isolation(false)]
pub fn str_contains(haystack: &str, needle: &str) -> (r: bool)
    ensures
        r == spec_contains(haystack@, needle@),
{
    let hlen = haystack.unicode_len();
    let nlen = needle.unicode_len();
    if nlen > hlen {
        return false;
    }
    if nlen == 0 {
        proof {
            assert(haystack@.subrange(0, 0 + needle@.len() as int) =~= needle@);
            assert(spec_contains(haystack@, needle@));
        }
        return true;
    }
    let mut k: usize = 0;
    while k <= hlen - nlen
        invariant
            k <= hlen - nlen + 1,
            nlen <= hlen,
            forall|t: int|
                0 <= t < k ==> #[trigger] haystack@.subrange(t, t + needle@.len()) != needle@,
        decreases hlen + 1 - nlen - k,
    {
        if matches_at(haystack, needle, k, hlen, nlen) {
            return true;
        }
        k = k + 1;
    }
    false
}

/// The analyzer's category for an event by its first topic: `auth` for an
/// authorization check, `storage_write` for a state change, `contract_call`
/// for an invocation, `other` otherwise.
pub open spec fn spec_analyzer_category(topic: Seq<char>) -> Seq<char> {
    if spec_contains(topic, "require_auth"@) {
        "auth"@
    } else if spec_contains(topic, "set"@) || spec_contains(topic, "write"@) || spec_contains(
        topic,
        "storage"@,
    ) {
        "storage_write"@
    } else if spec_contains(topic, "call"@) || spec_contains(topic, "invoke"@) {
        "contract_call"@
    } else {
        "other"@
    }
}

/// Sorts an event into the analyzer's category by its first topic.
pub fn analyzer_category(topic: &str) -> (r: String)
    ensures
        r@ == spec_analyzer_category(topic@),
{
    if str_contains(topic, "require_auth") {
        "auth".to_owned()
    } else if str_contains(topic, "set") || str_contains(topic, "write") || str_contains(
        topic,
        "storage",
    ) {
        "storage_write".to_owned()
    } else if str_contains(topic, "call") || str_contains(topic, "invoke") {
        "contract_call".to_owned()
    } else {
        "other".to_owned()
    }
}

/// The category of a contract event by its first topic symbol.
pub open spec fn spec_contract_category(sym: Seq<char>) -> Seq<char> {
    if spec_contains(sym, "require_auth"@) {
        "require_auth"@
    } else if spec_contains(sym, "set"@) || spec_contains(sym, "write"@) {
        "storage_write"@
    } else {
        "contract"@
    }
}

/// Sorts a contract event by its first topic symbol.
pub fn contract_category(sym: &str) -> (r: String)
    ensures
        r@ == spec_contract_category(sym@),
{
    if str_contains(sym, "require_auth") {
        "require_auth".to_owned()
    } else if str_contains(sym, "set") || str_contains(sym, "write") {
        "storage_write".to_owned()
    } else {
        "contract".to_owned()
    }
}

/// The category of a diagnostic event by its first topic symbol.
pub open spec fn spec_diagnostic_category(sym: Seq<char>) -> Seq<char> {
    if spec_contains(sym, "fn_call"@) {
        "invocation"@
    } else if spec_contains(sym, "fn_return"@) {
        "return"@
    } else {
        "diagnostic"@
    }
}

/// Sorts a diagnostic event by its first topic symbol.
pub fn diagnostic_category(sym: &str) -> (r: String)
    ensures
        r@ == spec_diagnostic_category(sym@),
{
    if str_contains(sym, "fn_call") {
        "invocation".to_owned()
    } else if str_contains(sym, "fn_return") {
        "return".to_owned()
    } else {
        "diagnostic".to_owned()
    }
}

} // verus!
