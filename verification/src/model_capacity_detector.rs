//! Spotting the "model at capacity" message in terminal output that arrives in
//! pieces.

use vstd::prelude::*;
use vstd::string::*;
use vstd::utf8::*;

use crate::text::{contains, keep_tail, occurs, occurs_at, tail_within, utf8_len, lemma_encode_concat};

verus! {

/// The message that a command line tool prints when its model is at capacity.
pub const MODEL_CAPACITY_ERROR: &'static str =
    "Selected model is at capacity. Please try a different model.";

/// The number of bytes of output that a detector keeps: one less than the
/// message takes.
pub const CARRY_BYTES: usize = 59;

/// Detects the exact capacity message while tolerating read boundaries of the
/// terminal. Its view is the end of the output that it keeps.
pub struct ModelCapacityErrorDetector {
    carry: String,
}

impl View for ModelCapacityErrorDetector {
    type V = Seq<char>;

    closed spec fn view(&self) -> Seq<char> {
        self.carry@
    }
}

impl Default for ModelCapacityErrorDetector {
    /// A detector that has seen no output.
    fn default() -> (detector: Self)
        ensures
            detector@ == Seq::<char>::empty(),
    {
        ModelCapacityErrorDetector { carry: String::new() }
    }
}

impl ModelCapacityErrorDetector {
    /// What a detector keeps is shorter than the message.
    #[verifier::type_invariant]
    spec fn carry_fits(self) -> bool {
        utf8_len(self.carry@) <= CARRY_BYTES
    }

    /// Takes the next piece of output and says whether the message ends in it:
    /// whether it stands in what was kept followed by `output`. The longest end
    /// of that within `CARRY_BYTES` bytes is kept. Empty output is never reported
    /// and changes nothing.
    pub fn observe(&mut self, output: &str) -> (matched: bool)
        ensures
            matched == occurs(old(self)@ + output@, MODEL_CAPACITY_ERROR@),
            final(self)@ == tail_within(old(self)@ + output@, CARRY_BYTES as nat),
            output@.len() == 0 ==> !matched && final(self)@ == old(self)@,
    {
        proof {
            use_type_invariant(&*self);
            message_takes_one_byte_more_than_is_kept();
        }
        if output.is_empty() {
            proof {
                assert(self@ + output@ == self@);
                lemma_short_text_lacks_message(self@);
            }
            return false;
        }
        let mut combined = String::new();
        std::mem::swap(&mut combined, &mut self.carry);
        combined.append(output);
        let matched = contains(combined.as_str(), MODEL_CAPACITY_ERROR);
        let carry = keep_tail(combined, CARRY_BYTES);
        proof {
            lemma_tail_fits(old(self)@ + output@, CARRY_BYTES as nat);
        }
        self.carry = carry;
        matched
    }
}

/// The message is plain ASCII and takes one byte more than a detector keeps.
pub proof fn message_takes_one_byte_more_than_is_kept()
    ensures
        is_ascii_chars(MODEL_CAPACITY_ERROR@),
        MODEL_CAPACITY_ERROR@.len() == CARRY_BYTES + 1,
        utf8_len(MODEL_CAPACITY_ERROR@) == CARRY_BYTES + 1,
{
    reveal_strlit("Selected model is at capacity. Please try a different model.");
    assert(MODEL_CAPACITY_ERROR@ == "Selected model is at capacity. Please try a different model."@);
    is_ascii_chars_encode_utf8(MODEL_CAPACITY_ERROR@);
}

/// A tail is within its budget.
proof fn lemma_tail_fits(text: Seq<char>, budget: nat)
    ensures
        utf8_len(tail_within(text, budget)) <= budget,
    decreases text.len(),
{
    if utf8_len(text) > budget && text.len() > 0 {
        lemma_tail_fits(text.drop_first(), budget);
    }
}

/// The message does not stand in a text that takes fewer bytes than it.
proof fn lemma_short_text_lacks_message(text: Seq<char>)
    requires
        utf8_len(text) <= CARRY_BYTES,
    ensures
        !occurs(text, MODEL_CAPACITY_ERROR@),
{
    message_takes_one_byte_more_than_is_kept();
    let message = MODEL_CAPACITY_ERROR@;
    if occurs(text, message) {
        let at = choose|at: int| occurs_at(text, message, at);
        let before = text.take(at);
        let after = text.skip(at + message.len());
        assert(text == before + (message + after));
        lemma_encode_concat(before, message + after);
        lemma_encode_concat(message, after);
    }
}

/// An occurrence of `pattern` in `history` followed by `chunk` ends in `chunk`.
pub open spec fn ends_in_chunk(history: Seq<char>, chunk: Seq<char>, pattern: Seq<char>) -> bool {
    exists|at: int|
        occurs_at(history + chunk, pattern, at) && at + pattern.len() > history.len()
}

/// The output made of `chunks`, one after the other.
pub open spec fn joined(chunks: Seq<Seq<char>>) -> Seq<char>
    decreases chunks.len(),
{
    if chunks.len() == 0 {
        Seq::empty()
    } else {
        joined(chunks.drop_last()) + chunks.last()
    }
}

/// What a new detector keeps after it has observed `chunks` one by one.
pub open spec fn carry_after(chunks: Seq<Seq<char>>) -> Seq<char>
    decreases chunks.len(),
{
    if chunks.len() == 0 {
        Seq::empty()
    } else {
        tail_within(carry_after(chunks.drop_last()) + chunks.last(), CARRY_BYTES as nat)
    }
}

/// Whether a new detector that observes `chunks` one by one reports the last one.
pub open spec fn reports_last(chunks: Seq<Seq<char>>) -> bool {
    &&& chunks.len() > 0
    &&& occurs(carry_after(chunks.drop_last()) + chunks.last(), MODEL_CAPACITY_ERROR@)
}

/// Whether a new detector that observes `chunks` one by one reports any of them.
pub open spec fn reports_any(chunks: Seq<Seq<char>>) -> bool
    decreases chunks.len(),
{
    chunks.len() > 0 && (reports_any(chunks.drop_last()) || reports_last(chunks))
}

/// Keeping the tail at each step keeps the tail of the whole.
proof fn lemma_tail_of_tail(a: Seq<char>, b: Seq<char>, budget: nat)
    ensures
        tail_within(tail_within(a, budget) + b, budget) == tail_within(a + b, budget),
    decreases a.len(),
{
    if utf8_len(a) > budget && a.len() > 0 {
        lemma_tail_of_tail(a.drop_first(), b, budget);
        lemma_encode_concat(a, b);
        assert((a + b).drop_first() == a.drop_first() + b);
    }
}

/// An end of a text that fits the budget is part of the tail.
proof fn lemma_tail_covers(text: Seq<char>, budget: nat, count: int)
    requires
        0 <= count <= text.len(),
        utf8_len(text.skip(count)) <= budget,
    ensures
        tail_within(text, budget).len() >= text.len() - count,
        tail_within(text, budget).len() <= text.len(),
        tail_within(text, budget) == text.skip(text.len() - tail_within(text, budget).len()),
    decreases text.len(),
{
    assert(text.skip(0) == text);
    if utf8_len(text) > budget && text.len() > 0 {
        let rest = text.drop_first();
        assert(rest.skip(count - 1) == text.skip(count));
        lemma_tail_covers(rest, budget, count - 1);
        let tail = tail_within(rest, budget);
        assert(rest.skip(rest.len() - tail.len()) == text.skip(text.len() - tail.len()));
    }
}

/// A detector that kept the tail of `history` reports a chunk exactly when the
/// message ends in it, wherever between the two the output was cut.
pub proof fn chunk_is_reported_iff_message_ends_in_it(history: Seq<char>, chunk: Seq<char>)
    ensures
        occurs(
            tail_within(history, CARRY_BYTES as nat) + chunk,
            MODEL_CAPACITY_ERROR@,
        ) <==> ends_in_chunk(history, chunk, MODEL_CAPACITY_ERROR@),
{
    let message = MODEL_CAPACITY_ERROR@;
    let kept = tail_within(history, CARRY_BYTES as nat);
    message_takes_one_byte_more_than_is_kept();
    lemma_tail_fits(history, CARRY_BYTES as nat);
    assert(utf8_len(history.skip(history.len() as int)) == 0);
    lemma_tail_covers(history, CARRY_BYTES as nat, history.len() as int);
    let dropped = history.len() - kept.len();
    assert(history + chunk == history.take(dropped) + (kept + chunk));
    if occurs(kept + chunk, message) {
        let at = choose|at: int| occurs_at(kept + chunk, message, at);
        if at + message.len() <= kept.len() {
            assert(kept.subrange(at, at + message.len()) == message);
            assert(occurs_at(kept, message, at));
            lemma_short_text_lacks_message(kept);
        }
        assert((history + chunk).subrange(dropped + at, dropped + at + message.len())
            == (kept + chunk).subrange(at, at + message.len()));
        assert(occurs_at(history + chunk, message, dropped + at));
    }
    if ends_in_chunk(history, chunk, message) {
        let at = choose|at: int|
            occurs_at(history + chunk, message, at) && at + message.len() > history.len();
        if at < history.len() {
            let head = history.skip(at);
            assert(head == message.take(history.len() - at)) by {
                assert forall|i: int| 0 <= i < head.len() implies head[i] == message[i] by {
                    assert((history + chunk).subrange(at, at + message.len())[i] == message[i]);
                }
            }
            is_ascii_chars_encode_utf8(head);
            lemma_tail_covers(history, CARRY_BYTES as nat, at);
        }
        assert((kept + chunk).subrange(at - dropped, at - dropped + message.len())
            == (history + chunk).subrange(at, at + message.len()));
        assert(occurs_at(kept + chunk, message, at - dropped));
    }
}

/// After any chunks a detector keeps the tail of the whole output.
pub proof fn carry_is_tail_of_output(chunks: Seq<Seq<char>>)
    ensures
        carry_after(chunks) == tail_within(joined(chunks), CARRY_BYTES as nat),
    decreases chunks.len(),
{
    if chunks.len() > 0 {
        carry_is_tail_of_output(chunks.drop_last());
        lemma_tail_of_tail(joined(chunks.drop_last()), chunks.last(), CARRY_BYTES as nat);
    }
}

/// The last of some chunks is reported exactly when the message ends in it.
pub proof fn last_chunk_is_reported_iff_message_ends_in_it(chunks: Seq<Seq<char>>)
    requires
        chunks.len() > 0,
    ensures
        reports_last(chunks) <==> ends_in_chunk(
            joined(chunks.drop_last()),
            chunks.last(),
            MODEL_CAPACITY_ERROR@,
        ),
{
    carry_is_tail_of_output(chunks.drop_last());
    chunk_is_reported_iff_message_ends_in_it(joined(chunks.drop_last()), chunks.last());
}

/// Some chunk is reported exactly when the message stands in the whole output.
pub proof fn some_chunk_is_reported_iff_message_in_output(chunks: Seq<Seq<char>>)
    ensures
        reports_any(chunks) <==> occurs(joined(chunks), MODEL_CAPACITY_ERROR@),
    decreases chunks.len(),
{
    let message = MODEL_CAPACITY_ERROR@;
    message_takes_one_byte_more_than_is_kept();
    if chunks.len() > 0 {
        let history = joined(chunks.drop_last());
        let chunk = chunks.last();
        some_chunk_is_reported_iff_message_in_output(chunks.drop_last());
        last_chunk_is_reported_iff_message_ends_in_it(chunks);
        if occurs(history, message) {
            let at = choose|at: int| occurs_at(history, message, at);
            assert((history + chunk).subrange(at, at + message.len()) == history.subrange(
                at,
                at + message.len(),
            ));
            assert(occurs_at(history + chunk, message, at));
        }
        if occurs(history + chunk, message) && !ends_in_chunk(history, chunk, message) {
            let at = choose|at: int| occurs_at(history + chunk, message, at);
            assert(history.subrange(at, at + message.len()) == (history + chunk).subrange(
                at,
                at + message.len(),
            ));
            assert(occurs_at(history, message, at));
        }
    }
}

/// Whether the message is reported does not depend on how the output was cut.
pub proof fn cutting_does_not_matter(chunks: Seq<Seq<char>>, others: Seq<Seq<char>>)
    requires
        joined(chunks) == joined(others),
    ensures
        reports_any(chunks) == reports_any(others),
        carry_after(chunks) == carry_after(others),
{
    some_chunk_is_reported_iff_message_in_output(chunks);
    some_chunk_is_reported_iff_message_in_output(others);
    carry_is_tail_of_output(chunks);
    carry_is_tail_of_output(others);
}

/// Joining the chunks is flattening them.
proof fn lemma_joined_is_flat(chunks: Seq<Seq<char>>)
    ensures
        joined(chunks) == chunks.flatten(),
    decreases chunks.len(),
{
    chunks.lemma_flatten_and_flatten_alt_are_equivalent();
    if chunks.len() > 0 {
        let before = chunks.drop_last();
        lemma_joined_is_flat(before);
        before.lemma_flatten_and_flatten_alt_are_equivalent();
        assert(chunks.flatten_alt() == before.flatten_alt() + chunks.last());
    }
}

/// A new detector that observes chunks one by one reports the last of them
/// exactly when the whole output reads: anything, then the message to the letter,
/// then less than that chunk.
pub proof fn chunk_is_reported_iff_output_spells_the_message(chunks: Seq<Seq<char>>)
    requires
        chunks.len() > 0,
    ensures
        occurs(carry_after(chunks.drop_last()) + chunks.last(), MODEL_CAPACITY_ERROR@)
            <==> exists|before: Seq<char>, after: Seq<char>|
            chunks.flatten() == #[trigger] (before
                + "Selected model is at capacity. Please try a different model."@ + after)
                && after.len() < chunks.last().len(),
{
    let message = "Selected model is at capacity. Please try a different model."@;
    let history = joined(chunks.drop_last());
    let chunk = chunks.last();
    lemma_joined_is_flat(chunks);
    last_chunk_is_reported_iff_message_ends_in_it(chunks);
    message_takes_one_byte_more_than_is_kept();
    assert(MODEL_CAPACITY_ERROR@ == message);
    let output = history + chunk;
    assert(chunks.flatten() == output);
    if ends_in_chunk(history, chunk, message) {
        let at = choose|at: int|
            occurs_at(output, message, at) && at + message.len() > history.len();
        let before = output.take(at);
        let after = output.skip(at + message.len());
        assert(output == before + message + after);
        assert(after.len() < chunk.len());
    }
    if exists|before: Seq<char>, after: Seq<char>|
        output == #[trigger] (before + message + after) && after.len() < chunk.len() {
        let (before, after) = choose|before: Seq<char>, after: Seq<char>|
            output == #[trigger] (before + message + after) && after.len() < chunk.len();
        let at = before.len() as int;
        assert(output.subrange(at, at + message.len()) == message);
        assert(occurs_at(output, message, at));
    }
}

/// What a new detector keeps after it has observed chunks one by one is an end of
/// the whole output, takes at most 59 bytes in UTF-8, and is the longest such end.
pub proof fn longest_end_that_fits_is_kept(chunks: Seq<Seq<char>>)
    ensures
        ({
            let kept = carry_after(chunks);
            let output = chunks.flatten();
            &&& kept.len() <= output.len()
            &&& kept == output.skip(output.len() - kept.len())
            &&& encode_utf8(kept).len() <= 59
            &&& forall|count: int|
                0 <= count <= output.len() && #[trigger] encode_utf8(output.skip(count)).len() <= 59
                    ==> output.len() - count <= kept.len()
        }),
{
    let output = joined(chunks);
    lemma_joined_is_flat(chunks);
    carry_is_tail_of_output(chunks);
    lemma_tail_fits(output, CARRY_BYTES as nat);
    assert(utf8_len(output.skip(output.len() as int)) == 0);
    lemma_tail_covers(output, CARRY_BYTES as nat, output.len() as int);
    assert forall|count: int|
        0 <= count <= output.len() && #[trigger] encode_utf8(output.skip(count)).len()
            <= 59 implies output.len() - count <= carry_after(chunks).len() by {
        lemma_tail_covers(output, CARRY_BYTES as nat, count);
    }
}

} // verus!
