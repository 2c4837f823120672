//! Tracks how much of the incoming data belongs to the body of a request.

use vstd::prelude::*;
use crate::decimal::{digits_value, is_digit};
use crate::request::headers_view;
use crate::text::{eq_ignore_case, eq_ignore_ascii_case};

verus! {

broadcast use vstd::seq_lib::group_seq_properties;

/// What `atoi::atoi::<u64>` reads from the bytes.
pub uninterp spec fn atoi_value(text: Seq<u8>) -> Option<u64>;

/// The characters of ASCII digit bytes.
pub open spec fn digit_chars(text: Seq<u8>) -> Seq<char> {
    text.map_values(|b: u8| b as char)
}

/// Reads the number at the start of the bytes (`atoi::atoi::<u64>`).
///
/// The contract names the result and states what the crate's documentation gives: a slice made
/// of decimal digits only reads as their value, or as `None` when that value overflows.
#[verifier::external_body]
fn atoi_u64(text: &[u8]) -> (r: Option<u64>)
    ensures
        r == atoi_value(text@),
        text@.len() > 0 && (forall|i: int| 0 <= i < text@.len() ==> 48 <= #[trigger] text@[i] <= 57)
            ==> r == (if digits_value(digit_chars(text@)) <= u64::MAX {
            Some(digits_value(digit_chars(text@)) as u64)
        } else {
            None
        }),
{
    atoi::atoi::<u64>(text)
}

/// The value read from the last `Content-Length` header, if there is one.
pub open spec fn last_content_length(h: Seq<(Seq<char>, Seq<char>)>) -> Option<u64>
    decreases h.len(),
{
    if h.len() == 0 {
        None
    } else if eq_ignore_case(h.last().0, "Content-Length"@) {
        atoi_value(vstd::utf8::encode_utf8(h.last().1))
    } else {
        last_content_length(h.drop_last())
    }
}

/// Number of bytes of request body that a request with these headers carries.
pub open spec fn announced_body_length(h: Seq<(Seq<char>, Seq<char>)>) -> u64 {
    match last_content_length(h) {
        Some(n) => n,
        None => 0,
    }
}

/// Counts down the bytes of a request body as the data arrives.
pub struct RequestBodyAnalyzer {
    remaining_content_length: u64,
}

impl View for RequestBodyAnalyzer {
    type V = u64;

    /// The number of body bytes still expected.
    closed spec fn view(&self) -> u64 {
        self.remaining_content_length
    }
}

/// What feeding `len` bytes to an analyzer that still expects `remaining` bytes gives: the
/// number of body bytes among them, whether the body is complete, and what is expected after.
pub open spec fn feed_spec(remaining: u64, len: nat) -> (usize, bool, u64) {
    if remaining == 0 {
        (0, true, 0)
    } else if len < remaining {
        (len as usize, remaining - len == 0, (remaining - len) as u64)
    } else {
        (remaining as usize, true, 0)
    }
}

/// Outcome of feeding data to a `RequestBodyAnalyzer`.
pub struct FeedOutcome {
    /// Number of bytes in `data` that contain the body of the request.
    pub body_data: usize,
    /// True if the request is finished. Calling `feed` again would return a `FeedOutcome` with a
    /// `body_data` of 0.
    pub finished: bool,
}

impl RequestBodyAnalyzer {
    /// Builds an analyzer for a request with the given headers. The last `Content-Length` header
    /// decides; a request without one, or whose value does not read as a number, has no body.
    pub fn new(headers: &Vec<(String, String)>) -> (r: RequestBodyAnalyzer)
        ensures
            r@ == announced_body_length(headers_view(headers@)),
    {
        let ghost hv = headers_view(headers@);
        let mut content_length: Option<u64> = None;
        let mut i: usize = 0;
        while i < headers.len()
            invariant
                i <= headers@.len(),
                hv == headers_view(headers@),
                content_length == last_content_length(hv.take(i as int)),
            decreases headers@.len() - i,
        {
            assert(hv.take(i + 1).drop_last() == hv.take(i as int));
            if eq_ignore_ascii_case(headers[i].0.as_str(), "Content-Length") {
                content_length = atoi_u64(headers[i].1.as_str().as_bytes());
            }
            i += 1;
        }
        assert(hv.take(headers@.len() as int) == hv);
        RequestBodyAnalyzer {
            remaining_content_length: match content_length {
                Some(n) => n,
                None => 0,
            },
        }
    }

    /// Processes some data: says how much of it belongs to the body.
    pub fn feed(&mut self, data: &mut [u8]) -> (o: FeedOutcome)
        ensures
            (o.body_data, o.finished, final(self)@) == feed_spec(old(self)@, old(data)@.len()),
            final(data)@ == old(data)@,
    {
        if self.remaining_content_length == 0 {
            return FeedOutcome { body_data: 0, finished: true };
        }
        let len = data.len();
        if (len as u64) < self.remaining_content_length {
            self.remaining_content_length = self.remaining_content_length - len as u64;
            return FeedOutcome { body_data: len, finished: self.remaining_content_length == 0 };
        }
        let body = self.remaining_content_length as usize;
        self.remaining_content_length = 0;
        FeedOutcome { body_data: body, finished: true }
    }
}

/// Once an analyzer reports the body finished, feeding it more data gives no body bytes and
/// reports it finished again; before that, every byte fed belongs to the body.
pub proof fn lemma_feed_finishes(remaining: u64, len: nat)
    requires
        len <= usize::MAX,
    ensures
        feed_spec(remaining, len).1 ==> feed_spec(feed_spec(remaining, len).2, len) == (
            0usize,
            true,
            0u64,
        ),
        !feed_spec(remaining, len).1 ==> feed_spec(remaining, len).0 == len,
        feed_spec(remaining, len).0 + feed_spec(remaining, len).2 == remaining,
{
}

/// Feeding an analyzer several chunks one after the other accounts for the whole announced body:
/// the body bytes reported add up to the smaller of the announced length and the data fed.
pub open spec fn fed_total(remaining: u64, lens: Seq<nat>) -> nat
    decreases lens.len(),
{
    if lens.len() == 0 {
        0
    } else {
        let (body, _, next) = feed_spec(remaining, lens[0]);
        body as nat + fed_total(next, lens.drop_first())
    }
}

/// The sum of the chunk lengths.
pub open spec fn sum_lens(lens: Seq<nat>) -> nat
    decreases lens.len(),
{
    if lens.len() == 0 {
        0
    } else {
        lens[0] + sum_lens(lens.drop_first())
    }
}

/// The body bytes reported over any sequence of feeds add up to `min(announced, fed)`.
pub proof fn lemma_fed_total(remaining: u64, lens: Seq<nat>)
    requires
        forall|i: int| 0 <= i < lens.len() ==> #[trigger] lens[i] <= usize::MAX,
    ensures
        fed_total(remaining, lens) == if sum_lens(lens) < remaining {
            sum_lens(lens)
        } else {
            remaining as nat
        },
    decreases lens.len(),
{
    if lens.len() > 0 {
        let (body, _, next) = feed_spec(remaining, lens[0]);
        assert(lens[0] <= usize::MAX);
        lemma_fed_total(next, lens.drop_first());
    }
}

/// What an analyzer that expects `remaining` bytes still expects after being fed chunks of the
/// given lengths, one after the other.
pub open spec fn remaining_after(remaining: u64, lens: Seq<nat>) -> u64
    decreases lens.len(),
{
    if lens.len() == 0 {
        remaining
    } else {
        remaining_after(feed_spec(remaining, lens[0]).2, lens.drop_first())
    }
}

/// After chunks of any lengths, an analyzer expects what was announced minus what it counted.
pub proof fn lemma_remaining_after(remaining: u64, lens: Seq<nat>)
    requires
        forall|i: int| 0 <= i < lens.len() ==> #[trigger] lens[i] <= usize::MAX,
    ensures
        remaining_after(remaining, lens) == remaining - fed_total(remaining, lens),
    decreases lens.len(),
{
    if lens.len() > 0 {
        assert(lens[0] <= usize::MAX);
        let next = feed_spec(remaining, lens[0]).2;
        assert forall|i: int| 0 <= i < lens.drop_first().len() implies #[trigger] lens.drop_first()[i]
            <= usize::MAX by {
            assert(lens.drop_first()[i] == lens[i + 1]);
        }
        lemma_remaining_after(next, lens.drop_first());
    }
}

/// Feeding chunks one after the other: the `i`-th feed counts as body as many of its bytes as
/// the announced length leaves after the body bytes counted before it, and reports the body
/// finished exactly when these add up to the announced length.
pub proof fn lemma_feeds_in_order(announced: u64, lens: Seq<nat>, i: int)
    requires
        forall|j: int| 0 <= j < lens.len() ==> #[trigger] lens[j] <= usize::MAX,
        0 <= i < lens.len(),
    ensures
        ({
            let before = fed_total(announced, lens.take(i));
            let (body, finished, _) = feed_spec(remaining_after(announced, lens.take(i)), lens[i]);
            &&& body == (if lens[i] < announced - before { lens[i] as int } else { announced - before })
            &&& finished == (before + body == announced)
        }),
{
    let pre = lens.take(i);
    assert forall|j: int| 0 <= j < pre.len() implies #[trigger] pre[j] <= usize::MAX by {
        assert(pre[j] == lens[j]);
    }
    lemma_fed_total(announced, pre);
    lemma_remaining_after(announced, pre);
    assert(lens[i] <= usize::MAX);
}

} // verus!
