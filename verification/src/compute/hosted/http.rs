//! Failures of the HTTP exchange with a hosted provider.

use crate::contracts::error::{
    ContractError, ContractErrorView, InferenceError, InferenceErrorView,
};
use vstd::prelude::*;

verus! {

/// The error for a request that got no response. A timeout or a failure to
/// connect is worth another try.
pub fn transport_error(detail: &str, is_timeout: bool, is_connect: bool) -> (r: ContractError)
    ensures
        r@ == ContractErrorView::Inference(
            InferenceErrorView::Provider {
                message: "transport error: "@ + detail@,
                retryable: is_timeout || is_connect,
            },
        ),
{
    ContractError::Inference(
        InferenceError::Provider {
            message: "transport error: ".to_owned().concat(detail),
            retryable: is_timeout || is_connect,
        },
    )
}

/// The error for a response whose status is no success, given the status code
/// and the line that shows it. A server error or a rate limit is worth another try.
pub fn http_error(provider: &str, status_code: u16, status_line: &str, body: &str) -> (r:
    ContractError)
    ensures
        r@ == ContractErrorView::Inference(
            InferenceErrorView::Provider {
                message: provider@ + " HTTP "@ + status_line@ + ": "@ + body@,
                retryable: 500 <= status_code <= 599 || status_code == 429,
            },
        ),
{
    let mut message = provider.to_owned();
    message.append(" HTTP ");
    message.append(status_line);
    message.append(": ");
    message.append(body);
    ContractError::Inference(
        InferenceError::Provider {
            message,
            retryable: (500 <= status_code && status_code <= 599) || status_code == 429,
        },
    )
}

} // verus!
