//! What the server answers to a request: every request gets the same status,
//! and the one that asks for it gets its answer late.

use vstd::prelude::*;

verus! {

/// The bytes of the request line `GET /sleep HTTP/1.1`, with its line end.
pub open spec fn sleep_request_line() -> Seq<u8> {
    seq![
        71u8, 69u8, 84u8, 32u8, 47u8, 115u8, 108u8, 101u8, 101u8, 112u8, 32u8, 72u8, 84u8, 84u8,
        80u8, 47u8, 49u8, 46u8, 49u8, 13u8, 10u8,
    ]
}

/// The request begins with the line that asks for the slow answer.
pub open spec fn asks_to_sleep(request: Seq<u8>) -> bool {
    sleep_request_line().is_prefix_of(request)
}

/// An answer, and how long to hold it back.
pub struct Reply {
    /// Seconds to wait before the answer is sent.
    pub delay_secs: u64,
    /// The status line, without its line end.
    pub status_line: &'static str,
    /// The body.
    pub content: &'static str,
}

/// Tells whether `request` begins with the line that asks for the slow
/// answer.
pub fn is_sleep_request(request: &[u8]) -> (slow: bool)
    ensures
        slow == asks_to_sleep(request@),
{
    let line: [u8; 21] = [
        71, 69, 84, 32, 47, 115, 108, 101, 101, 112, 32, 72, 84, 84, 80, 47, 49, 46, 49, 13, 10,
    ];
    assert(line@ =~= sleep_request_line());
    if request.len() < 21 {
        return false;
    }
    let mut i: usize = 0;
    while i < 21
        invariant
            i <= 21,
            request@.len() >= 21,
            line@ == sleep_request_line(),
            forall|j: int| 0 <= j < i ==> request@[j] == line@[j],
        decreases 21 - i,
    {
        if request[i] != line[i] {
            return false;
        }
        i += 1;
    }
    assert(request@.subrange(0, 21) =~= line@);
    true
}

/// The answer to `request`: the slow one, held back five seconds, where the
/// request asks to sleep, and the fast one at once otherwise.
pub fn reply_to(request: &[u8]) -> (reply: Reply)
    ensures
        reply.status_line@ == "HTTP/1.1 200 OK"@,
        asks_to_sleep(request@) ==> reply.delay_secs == 5 && reply.content@ == "Slow Response\n"@,
        !asks_to_sleep(request@) ==> reply.delay_secs == 0 && reply.content@
            == "Fast Response\n"@,
{
    if is_sleep_request(request) {
        Reply { delay_secs: 5, status_line: "HTTP/1.1 200 OK", content: "Slow Response\n" }
    } else {
        Reply { delay_secs: 0, status_line: "HTTP/1.1 200 OK", content: "Fast Response\n" }
    }
}

} // verus!
