//! Token estimation: a fixed characters-per-token heuristic over the text
//! extracted from message content.

use vstd::prelude::*;
use vstd::string::StrSliceExecFns;
use vstd::string::StringExecFns;

use crate::text::join_with;
use crate::types::Content;
use crate::types::ContentBlock;
use crate::types::Message;

verus! {

/// Whether a content block contributes text: its type tag is `"text"` and
/// it carries a text value.
pub open spec fn block_contributes(b: ContentBlock) -> bool {
    b.block_type@ == "text"@ && b.text is Some
}

/// The texts of the contributing blocks, in order.
pub open spec fn block_texts(blocks: Seq<ContentBlock>) -> Seq<Seq<char>>
    decreases blocks.len(),
{
    if blocks.len() == 0 {
        Seq::empty()
    } else {
        let rest = block_texts(blocks.drop_last());
        if block_contributes(blocks.last()) {
            rest.push(blocks.last().text->0@)
        } else {
            rest
        }
    }
}

/// The text a message body yields: a plain string verbatim; for a block
/// sequence, the contributing blocks' texts joined by newlines; for any
/// other shape, its serialized form.
pub open spec fn content_text(c: Content) -> Seq<char> {
    match c {
        Content::Text(s) => s@,
        Content::Blocks(blocks) => join_with(block_texts(blocks@), "\n"@),
        Content::Other(s) => s@,
    }
}

/// Extracts the text of a message body.
pub fn extract_text_from_content(content: &Content) -> (r: String)
    ensures
        r@ == content_text(*content),
{
    match content {
        Content::Text(s) => s.clone(),
        Content::Other(s) => s.clone(),
        Content::Blocks(blocks) => {
            let text_tag: String = String::from_str("text");
            let mut out = String::new();
            let mut parts: usize = 0;
            let mut i: usize = 0;
            while i < blocks.len()
                invariant
                    text_tag@ == "text"@,
                    i <= blocks@.len(),
                    parts <= i,
                    parts == block_texts(blocks@.take(i as int)).len(),
                    out@ == join_with(block_texts(blocks@.take(i as int)), "\n"@),
                decreases blocks@.len() - i,
            {
                proof {
                    assert(blocks@.take(i + 1).drop_last() =~= blocks@.take(i as int));
                    assert(blocks@.take(i + 1).last() == blocks@[i as int]);
                }
                let block = &blocks[i];
                if block.block_type.eq(&text_tag) {
                    match &block.text {
                        Some(t) => {
                            if parts > 0 {
                                out.append("\n");
                            }
                            out.append(t.as_str());
                            proof {
                                let q = block_texts(blocks@.take(i as int));
                                let p = block_texts(blocks@.take(i + 1));
                                assert(p == q.push(t@));
                                assert(p.drop_last() =~= q);
                                assert(p.last() == t@);
                                if parts == 0 {
                                    assert(out@ =~= join_with(p, "\n"@));
                                } else {
                                    assert(out@ == join_with(q, "\n"@) + "\n"@ + t@);
                                    assert(join_with(p, "\n"@) == join_with(q, "\n"@) + "\n"@
                                        + t@);
                                }
                            }
                            parts = parts + 1;
                        },
                        None => {},
                    }
                } else {
                }
                i = i + 1;
            }
            proof {
                assert(blocks@.take(blocks@.len() as int) =~= blocks@);
            }
            out
        },
    }
}

/// The estimated token count of `len` characters: one token per four
/// characters, rounded up.
pub open spec fn token_count(len: nat) -> nat {
    (len + 3) / 4
}

/// `n` held to the range of a `u32`.
pub open spec fn clamp_u32(n: nat) -> nat {
    if n > u32::MAX {
        u32::MAX as nat
    } else {
        n
    }
}

/// The estimated token count of one message.
pub open spec fn message_tokens(m: Message) -> nat {
    token_count(content_text(m.content).len())
}

/// The summed per-message estimates of a batch, each held to `u32` range
/// as the executable estimator reports it.
pub open spec fn messages_tokens(msgs: Seq<Message>) -> nat
    decreases msgs.len(),
{
    if msgs.len() == 0 {
        0
    } else {
        messages_tokens(msgs.drop_last()) + clamp_u32(message_tokens(msgs.last()))
    }
}

pub(crate) fn estimate_tokens_in(message: &Message) -> (r: u32)
    ensures
        r as nat == clamp_u32(message_tokens(*message)),
{
    let text = extract_text_from_content(&message.content);
    let len = text.as_str().unicode_len();
    let est: usize = len / 4 + (if len % 4 == 0 {
        0
    } else {
        1
    });
    assert(est as nat == token_count(len as nat));
    if est > u32::MAX as usize {
        u32::MAX
    } else {
        est as u32
    }
}

/// Estimates the token count of a message: one token per four characters
/// of its extracted text, rounded up; a count past `u32::MAX` is reported
/// as `u32::MAX`.
pub fn estimate_tokens(message: Message) -> (r: u32)
    ensures
        r as nat == clamp_u32(message_tokens(message)),
{
    estimate_tokens_in(&message)
}

pub(crate) fn estimate_messages_tokens_in(messages: &Vec<Message>) -> (r: u32)
    ensures
        r as nat == clamp_u32(messages_tokens(messages@)),
{
    let mut acc: u64 = 0;
    let mut i: usize = 0;
    while i < messages.len()
        invariant
            i <= messages@.len(),
            acc <= u32::MAX,
            acc as nat == clamp_u32(messages_tokens(messages@.take(i as int))),
        decreases messages@.len() - i,
    {
        proof {
            assert(messages@.take(i + 1).drop_last() =~= messages@.take(i as int));
            assert(messages@.take(i + 1).last() == messages@[i as int]);
        }
        let est = estimate_tokens_in(&messages[i]);
        acc = acc + est as u64;
        if acc > u32::MAX as u64 {
            acc = u32::MAX as u64;
        }
        i = i + 1;
    }
    proof {
        assert(messages@.take(messages@.len() as int) =~= messages@);
    }
    acc as u32
}

/// Estimates the total token count of a batch: the sum of the per-message
/// estimates, held to `u32` range.
pub fn estimate_messages_tokens(messages: Vec<Message>) -> (r: u32)
    ensures
        r as nat == clamp_u32(messages_tokens(messages@)),
{
    estimate_messages_tokens_in(&messages)
}

/// The estimate of a plain-string message is exactly the character count
/// divided by four, rounded up; the estimator is a function of the message
/// alone, so it is deterministic, and as a `nat` it is non-negative.
pub proof fn lemma_plain_text_estimate(m: Message, s: String)
    requires
        m.content == Content::Text(s),
    ensures
        message_tokens(m) == (s@.len() + 3) / 4,
{
}

/// Batch estimation distributes over concatenation, and the total is the
/// same whichever order the two parts are given in.
pub proof fn lemma_messages_tokens_concat(a: Seq<Message>, b: Seq<Message>)
    ensures
        messages_tokens(a + b) == messages_tokens(a) + messages_tokens(b),
        messages_tokens(a + b) == messages_tokens(b + a),
{
    lemma_messages_tokens_concat_one(a, b);
    lemma_messages_tokens_concat_one(b, a);
}

proof fn lemma_messages_tokens_concat_one(a: Seq<Message>, b: Seq<Message>)
    ensures
        messages_tokens(a + b) == messages_tokens(a) + messages_tokens(b),
    decreases b.len(),
{
    if b.len() == 0 {
        assert(a + b =~= a);
    } else {
        assert((a + b).drop_last() =~= a + b.drop_last());
        assert((a + b).last() == b.last());
        lemma_messages_tokens_concat_one(a, b.drop_last());
    }
}

} // verus!
