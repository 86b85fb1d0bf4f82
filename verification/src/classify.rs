//! The line classifier: decides whether a payload can be emitted as one line
//! of text.

use vstd::prelude::*;
use vstd::utf8::*;

verus! {

/// The text that `std::str::from_utf8` gives, through `Display`, to the error
/// it returns for `payload`. Only meaningful where `payload` is not valid
/// UTF-8.
pub uninterp spec fn decode_error_text(payload: Seq<u8>) -> Seq<char>;

/// What the classifier found in one payload.
#[derive(Debug, PartialEq, Eq)]
pub enum Outcome {
    /// Valid text on a single line.
    Accept(String),
    /// Valid text that holds a newline; the text is kept for the diagnostic.
    RejectNewline(String),
    /// Not valid UTF-8; the decoder's complaint is kept for the diagnostic.
    RejectParseError(String),
}

/// The mathematical value of an [`Outcome`]: texts as character sequences.
pub enum OutcomeView {
    Accept(Seq<char>),
    RejectNewline(Seq<char>),
    RejectParseError(Seq<char>),
}

impl View for Outcome {
    type V = OutcomeView;

    open spec fn view(&self) -> OutcomeView {
        match self {
            Outcome::Accept(text) => OutcomeView::Accept(text@),
            Outcome::RejectNewline(text) => OutcomeView::RejectNewline(text@),
            Outcome::RejectParseError(reason) => OutcomeView::RejectParseError(reason@),
        }
    }
}

/// The line feed, the one character that ends a line.
pub open spec fn newline() -> char {
    '\n'
}

/// The byte that encodes the line feed.
pub const LINE_FEED: u8 = 0x0a;

/// The classification of a payload, as a function of its bytes alone.
pub open spec fn classify_spec(payload: Seq<u8>) -> OutcomeView {
    if !valid_utf8(payload) {
        OutcomeView::RejectParseError(decode_error_text(payload))
    } else if decode_utf8(payload).contains(newline()) {
        OutcomeView::RejectNewline(decode_utf8(payload))
    } else {
        OutcomeView::Accept(decode_utf8(payload))
    }
}

/// Classification depends on the bytes alone: payloads that agree byte for
/// byte get the same outcome, however often and wherever they are classified.
pub proof fn theorem_classification_is_a_function(first: Seq<u8>, second: Seq<u8>)
    requires
        first.len() == second.len(),
        forall|i: int| 0 <= i < first.len() ==> first[i] == second[i],
    ensures
        classify_spec(first) == classify_spec(second),
{
    assert(first =~= second);
}

/// Text without a newline, once encoded, is accepted as that same text; text
/// with a newline is rejected for it and never taken for a parse error.
pub proof fn theorem_encoded_text_is_recognised(text: Seq<char>)
    ensures
        classify_spec(encode_utf8(text)) == if text.contains(newline()) {
            OutcomeView::RejectNewline(text)
        } else {
            OutcomeView::Accept(text)
        },
{
    encode_utf8_valid_utf8(text);
    encode_utf8_decode_utf8(text);
}

/// In a well-formed first scalar only a leading line-feed byte makes a line
/// feed: the bytes after the first are never that byte, and the scalar is
/// the line feed exactly when the first byte is.
proof fn lemma_first_scalar_line_feed(bytes: Seq<u8>)
    requires
        valid_first_scalar(bytes),
    ensures
        1 <= length_of_first_scalar(bytes) <= bytes.len(),
        (decode_first_scalar(bytes) as char == newline()) <==> bytes[0] == LINE_FEED,
        forall|i: int| 1 <= i < length_of_first_scalar(bytes) ==> bytes[i] != LINE_FEED,
{
    let lead = bytes[0];
    let scalar = decode_first_scalar(bytes);
    if is_leading_byte_width_1(lead) {
        assert(lead & 0x7f == lead) by (bit_vector)
            requires
                lead <= 0x7f,
        ;
        assert(scalar == lead as u32);
    } else {
        assert(scalar >= 0x80);
        assert(scalar <= 0x10ffff) by {
            if is_leading_byte_width_2(lead) {
                let next = bytes[1];
                assert(((lead & 0x1f) as u32) << 6 | (next & 0x3f) as u32 <= 0x7ff) by (bit_vector);
            } else if is_leading_byte_width_3(lead) {
                let second = bytes[1];
                let third = bytes[2];
                assert(((lead & 0x0f) as u32) << 12 | ((second & 0x3f) as u32) << 6 | (third
                    & 0x3f) as u32 <= 0xffff) by (bit_vector);
            }
        }
    }
}

/// In valid UTF-8 the line-feed byte stands for the line feed and for
/// nothing else: the decoded text holds a newline exactly when the bytes
/// hold that byte.
pub proof fn theorem_newline_is_line_feed_byte(bytes: Seq<u8>)
    requires
        valid_utf8(bytes),
    ensures
        decode_utf8(bytes).contains(newline()) <==> bytes.contains(LINE_FEED),
    decreases bytes.len(),
{
    if bytes.len() > 0 {
        let width = length_of_first_scalar(bytes);
        let rest = pop_first_scalar(bytes);
        let first = decode_first_scalar(bytes) as char;
        let text = decode_utf8(bytes);
        let tail = decode_utf8(rest);
        lemma_first_scalar_line_feed(bytes);
        theorem_newline_is_line_feed_byte(rest);
        assert(text =~= seq![first] + tail);
        if text.contains(newline()) {
            let j = choose|j: int| 0 <= j < text.len() && text[j] == newline();
            if j == 0 {
                assert(bytes[0] == LINE_FEED);
            } else {
                assert(tail[j - 1] == newline());
                assert(tail.contains(newline()));
                let k = choose|k: int| 0 <= k < rest.len() && rest[k] == LINE_FEED;
                assert(bytes[width + k] == LINE_FEED);
            }
        }
        if bytes.contains(LINE_FEED) {
            let k = choose|k: int| 0 <= k < bytes.len() && bytes[k] == LINE_FEED;
            if k < width {
                assert(k == 0);
                assert(text[0] == newline());
            } else {
                assert(rest[k - width] == LINE_FEED);
                assert(rest.contains(LINE_FEED));
                let j = choose|j: int| 0 <= j < tail.len() && tail[j] == newline();
                assert(text[j + 1] == newline());
            }
        }
    }
}

/// A payload is accepted exactly when it is valid UTF-8 without a line-feed
/// byte, so an accepted text written with one line feed after it is one line
/// of output.
pub proof fn theorem_accepted_payload_is_one_line(payload: Seq<u8>)
    ensures
        classify_spec(payload) is Accept <==> valid_utf8(payload) && !payload.contains(LINE_FEED),
        classify_spec(payload) is RejectNewline <==> valid_utf8(payload) && payload.contains(
            LINE_FEED,
        ),
        classify_spec(payload) is RejectParseError <==> !valid_utf8(payload),
{
    if valid_utf8(payload) {
        theorem_newline_is_line_feed_byte(payload);
    }
}

/// Calls `std::str::from_utf8` on `payload`. The call succeeds exactly on
/// valid UTF-8 and then yields the text that the bytes encode; on failure the
/// error is rendered with `Display` and handed back as a string.
#[verifier::external_body]
fn decode_text(payload: &[u8]) -> (decoded: Result<&str, String>)
    ensures
        decoded is Ok <==> valid_utf8(payload@),
        decoded matches Ok(text) ==> text@ == decode_utf8(payload@),
        decoded matches Err(reason) ==> reason@ == decode_error_text(payload@),
{
    match std::str::from_utf8(payload) {
        Ok(text) => Ok(text),
        Err(err) => Err(format!("{}", err)),
    }
}

/// Whether `text` holds a line feed.
pub fn has_newline(text: &str) -> (found: bool)
    ensures
        found == text@.contains(newline()),
{
    let mut found = false;
    for c in it: text.chars()
        invariant
            found == (exists|j: int| 0 <= j < it.index() && text@[j] == newline()),
            it.seq() == text@,
    {
        if c == '\n' {
            found = true;
        }
    }
    found
}

/// Classifies one payload.
pub fn classify(payload: &[u8]) -> (outcome: Outcome)
    ensures
        outcome@ == classify_spec(payload@),
{
    match decode_text(payload) {
        Ok(text) => {
            if has_newline(text) {
                Outcome::RejectNewline(String::from_str(text))
            } else {
                Outcome::Accept(String::from_str(text))
            }
        },
        Err(reason) => Outcome::RejectParseError(reason),
    }
}

} // verus!
