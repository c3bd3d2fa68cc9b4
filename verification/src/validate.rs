//! Input-size validation against a context window, with the fixed safety
//! margin of 1.2 and input ratio of 0.75 applied in exact integer
//! arithmetic.

use vstd::prelude::*;
use vstd::string::StringExecFns;

use crate::estimate::clamp_u32;
use crate::estimate::estimate_messages_tokens_in;
use crate::estimate::messages_tokens;
use crate::text::decimal_of;
use crate::text::u64_to_decimal;
use crate::types::Message;
use crate::types::ValidationResult;

verus! {

/// `floor((w / 1.2) * 0.75)`: the greatest input size permitted by a
/// context window of `w` tokens, which is exactly `w * 5 / 8`.
pub open spec fn max_input_for_window(w: nat) -> nat {
    w * 5 / 8
}

/// `ceil(raw * 1.2)`: the raw estimate with the safety margin applied,
/// which is exactly `(raw * 6 + 4) / 5`.
pub open spec fn with_safety_margin(raw: nat) -> nat {
    (raw * 6 + 4) / 5
}

/// `floor(max * 0.75)`: the effective limit derived from a stated
/// maximum, which is exactly `max * 3 / 4`.
pub open spec fn effective_limit(max: nat) -> nat {
    max * 3 / 4
}

/// The margined token estimate of a batch.
pub open spec fn input_tokens_of(msgs: Seq<Message>) -> nat {
    with_safety_margin(clamp_u32(messages_tokens(msgs)))
}

/// Whether a batch fits: its margined estimate is at most the effective
/// limit derived from `max`.
pub open spec fn fits(msgs: Seq<Message>, max: nat) -> bool {
    input_tokens_of(msgs) <= effective_limit(max)
}

/// The reason reported when a batch does not fit.
pub open spec fn too_large_reason(input: nat, limit: nat) -> Seq<char> {
    "Input ("@ + decimal_of(input) + " tokens) exceeds limit ("@ + decimal_of(limit)
        + " tokens)"@
}

/// The maximum permitted input size for a context window:
/// `floor((context_window / 1.2) * 0.75)`.
pub fn calculate_max_input_tokens(context_window: u32) -> (r: u32)
    ensures
        r as nat == max_input_for_window(context_window as nat),
{
    let w = context_window as u64;
    let m = w * 5 / 8;
    assert(m <= w) by (nonlinear_arith)
        requires
            m == w * 5 / 8,
    ;
    m as u32
}

/// Decides whether a batch can be compacted under a stated maximum: ok
/// exactly when `ceil(sum * 1.2) <= floor(max * 0.75)`, equality
/// included; otherwise the reason names the measured and limit values.
pub fn can_compact(messages: Vec<Message>, max_input_tokens: u32) -> (r: ValidationResult)
    ensures
        r.ok == fits(messages@, max_input_tokens as nat),
        r.ok ==> r.reason is None && r.input_tokens is None,
        !r.ok ==> {
            &&& r.input_tokens is Some
            &&& r.input_tokens->0 as nat == clamp_u32(input_tokens_of(messages@))
            &&& r.reason is Some
            &&& r.reason->0@ == too_large_reason(
                clamp_u32(input_tokens_of(messages@)),
                effective_limit(max_input_tokens as nat),
            )
        },
{
    let raw = estimate_messages_tokens_in(&messages);
    let input: u64 = ((raw as u64) * 6 + 4) / 5;
    let limit: u64 = (max_input_tokens as u64) * 3 / 4;
    if input <= limit {
        ValidationResult { ok: true, reason: None, input_tokens: None }
    } else {
        let reported: u32 = if input > u32::MAX as u64 {
            u32::MAX
        } else {
            input as u32
        };
        assert(reported as nat == clamp_u32(input_tokens_of(messages@)));
        let mut reason = String::from_str("Input (");
        let input_digits = u64_to_decimal(reported as u64);
        reason.append(input_digits.as_str());
        reason.append(" tokens) exceeds limit (");
        let limit_digits = u64_to_decimal(limit);
        reason.append(limit_digits.as_str());
        reason.append(" tokens)");
        ValidationResult {
            ok: false,
            reason: Some(reason),
            input_tokens: Some(reported),
        }
    }
}

} // verus!
