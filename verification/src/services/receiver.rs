use vstd::prelude::*;

verus! {

/// Milliseconds between two sends at `max_send_per_second` sends per second, with the
/// rate read as an unsigned 64-bit number (a negative rate gives 0).
pub fn send_interval_millis(max_send_per_second: i32) -> (r: u64)
    requires
        max_send_per_second != 0,
    ensures
        r == 1000u64 / (#[verifier::truncate] (max_send_per_second as u64)),
        max_send_per_second > 0 ==> r == 1000int / (max_send_per_second as int),
        max_send_per_second < 0 ==> r == 0,
{
    let divisor: u64 = #[verifier::truncate] (max_send_per_second as u64);
    assert(divisor != 0 && (max_send_per_second > 0 ==> divisor == max_send_per_second) && (
    max_send_per_second < 0 ==> 1000u64 / divisor == 0)) by (bit_vector)
        requires
            max_send_per_second != 0,
            divisor == #[verifier::truncate] (max_send_per_second as u64),
    ;
    1000 / divisor
}

/// Sending once per interval keeps within the configured rate: a second holds at most
/// `max_send_per_second` intervals, and one more would not fit.
pub proof fn lemma_send_rate_respected(max_send_per_second: i32)
    requires
        0 < max_send_per_second <= 1000,
    ensures
        (1000int / (max_send_per_second as int)) * max_send_per_second <= 1000,
        (1000int / (max_send_per_second as int) + 1) * max_send_per_second > 1000,
        1000int / (max_send_per_second as int) >= 1,
{
    let m = max_send_per_second as int;
    let q = 1000int / m;
    assert(q * m <= 1000 && (q + 1) * m > 1000 && q >= 1) by (nonlinear_arith)
        requires
            0 < m <= 1000,
            q == 1000int / m,
    ;
}

} // verus!
