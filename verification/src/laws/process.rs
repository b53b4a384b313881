//! Outputs of commands, and how long they are waited for.

use crate::process;
use crate::process::{BoundedOutput, WaitAction};
use vstd::prelude::*;
use vstd::utf8::*;

verus! {

/// Nothing is kept of an output, and nothing was dropped, before anything was read of it.
pub proof fn outputs_begin_empty(output: BoundedOutput)
    requires
        call_ensures(BoundedOutput::new, (), output),
    ensures
        output.bytes@.len() == 0,
        !output.overflow,
{
}

/// What is kept after one more chunk is a beginning of all that came: up to the limit, and never
/// less than before. Something was dropped if something was before, or if not all was kept now.
pub proof fn chunks_are_kept_up_to_the_limit(
    output: &mut BoundedOutput,
    chunk: &[u8],
    limit: usize,
)
    requires
        call_ensures(BoundedOutput::absorb, (output, chunk, limit), ()),
    ensures
        ({
            let all = old(output).bytes@ + chunk@;
            let kept = final(output).bytes@;
            &&& kept.is_prefix_of(all)
            &&& old(output).bytes@.is_prefix_of(kept)
            &&& kept.len() == if old(output).bytes@.len() >= limit {
                old(output).bytes@.len()
            } else if all.len() > limit {
                limit as nat
            } else {
                all.len()
            }
            &&& final(output).overflow <==> old(output).overflow || kept.len() < all.len()
        }),
{
    let all = old(output).bytes@ + chunk@;
    let kept = final(output).bytes@;
    assert(kept =~= all.take(kept.len() as int));
    assert(old(output).bytes@ =~= kept.take(old(output).bytes@.len() as int));
}

/// If what is kept is the beginning of all that was written, so it is after one more chunk.
pub proof fn outputs_stay_beginnings(
    output: &mut BoundedOutput,
    chunk: &[u8],
    limit: usize,
    written: Seq<u8>,
)
    requires
        call_ensures(BoundedOutput::absorb, (output, chunk, limit), ()),
        old(output).bytes@.is_prefix_of(written),
        old(output).bytes@.len() == if written.len() > limit {
            limit as nat
        } else {
            written.len()
        },
        old(output).overflow == (written.len() > limit),
    ensures
        final(output).bytes@.is_prefix_of(written + chunk@),
        final(output).bytes@.len() == if written.len() + chunk@.len() > limit {
            limit as nat
        } else {
            written.len() + chunk@.len()
        },
        final(output).overflow == (written.len() + chunk@.len() > limit),
{
    chunks_are_kept_up_to_the_limit(output, chunk, limit);
    let kept = final(output).bytes@;
    let all = old(output).bytes@ + chunk@;
    assert(kept =~= all.take(kept.len() as int));
    assert(old(output).bytes@ =~= written.take(old(output).bytes@.len() as int));
    assert(kept =~= (written + chunk@).take(kept.len() as int));
}

/// All that chunks hold is their bytes, one chunk after the other.
pub proof fn chunks_are_joined_in_order(chunks: Seq<Seq<u8>>)
    ensures
        process::joined(chunks) == chunks.flatten(),
{
    joined_from_the_end(chunks);
    chunks.lemma_flatten_and_flatten_alt_are_equivalent();
}

proof fn joined_from_the_end(chunks: Seq<Seq<u8>>)
    ensures
        process::joined(chunks) == chunks.flatten_alt(),
    decreases chunks.len(),
{
    if chunks.len() > 0 {
        joined_from_the_end(chunks.drop_last());
    }
}

/// A command that ended well and wrote a text within its limit gave a secret: the text without the
/// one line ending at its end, unless nothing is left. No other bound applies.
pub proof fn outputs_give_their_text(
    output: BoundedOutput,
    text: Seq<char>,
    secret: Result<String, ()>,
)
    requires
        call_ensures(process::accept_output, (true, output), secret),
        !output.overflow,
        output.bytes@ == encode_utf8(text),
    ensures
        text.len() == 0 ==> secret is Err,
        text.len() > 0 && text.last() != '\n' ==> secret is Ok && secret->Ok_0@ == text,
        text.len() > 0 && text.last() == '\n' ==> ({
            let line = text.take(text.len() - 1);
            let rest = if line.len() > 0 && line.last() == '\r' {
                line.take(line.len() - 1)
            } else {
                line
            };
            &&& secret is Ok <==> rest.len() > 0
            &&& secret is Ok ==> secret->Ok_0@ == rest
        }),
{
    encode_utf8_valid_utf8(text);
    encode_utf8_decode_utf8(text);
    if text.len() > 0 {
        assert(text.drop_last() =~= text.take(text.len() - 1));
        let line = text.take(text.len() - 1);
        if line.len() > 0 {
            assert(line.drop_last() =~= line.take(line.len() - 1));
        }
    }
}

/// A secret comes only from a command that ended well and whose output was kept whole: it is what
/// the command wrote, but for one line ending, and not empty.
pub proof fn secrets_were_written(success: bool, output: BoundedOutput, secret: String)
    requires
        call_ensures(process::accept_output, (success, output), Ok(secret)),
    ensures
        success,
        !output.overflow,
        secret@.len() > 0,
        ({
            ||| output.bytes@ == encode_utf8(secret@) && secret@.last() != '\n'
            ||| output.bytes@ == encode_utf8(secret@.push('\n')) && secret@.last() != '\r'
            ||| output.bytes@ == encode_utf8(secret@.push('\r').push('\n'))
        }),
{
    let text = decode_utf8(output.bytes@);
    decode_utf8_encode_utf8(output.bytes@);
    if text.len() > 0 && text.last() == '\n' {
        let line = text.drop_last();
        assert(text =~= line.push('\n'));
        if line.len() > 0 && line.last() == '\r' {
            assert(line =~= line.drop_last().push('\r'));
        }
    }
}

/// However an output is cut into chunks, a command that ended well and wrote a text of at most
/// `limit` bytes gives what the text written in one piece gives, and one that wrote more gives
/// nothing.
pub proof fn written_texts_give_secrets(chunks: Seq<Seq<u8>>, limit: nat, text: Seq<char>)
    requires
        chunks.flatten() == encode_utf8(text),
        text.len() > 0,
        text.last() != '\n',
    ensures
        encode_utf8(text).len() <= limit ==> process::secret_in(
            true,
            process::absorbed_all(chunks, limit),
        ) == Some(text),
        encode_utf8(text).len() > limit ==> process::secret_in(
            true,
            process::absorbed_all(chunks, limit),
        ) is None,
        process::secret_in(false, process::absorbed_all(chunks, limit)) is None,
{
    chunks_are_joined_in_order(chunks);
    process::output_is_bounded(chunks, limit);
    encode_utf8_valid_utf8(text);
    encode_utf8_decode_utf8(text);
}

/// The same with a line ending, which is taken off once.
pub proof fn written_lines_give_secrets(chunks: Seq<Seq<u8>>, limit: nat, line: Seq<char>)
    requires
        line.len() > 0,
        chunks.flatten().len() <= limit,
    ensures
        chunks.flatten() == encode_utf8(line.push('\n')) && line.last() != '\r'
            ==> process::secret_in(true, process::absorbed_all(chunks, limit)) == Some(line),
        chunks.flatten() == encode_utf8(line.push('\r').push('\n')) ==> process::secret_in(
            true,
            process::absorbed_all(chunks, limit),
        ) == Some(line),
{
    chunks_are_joined_in_order(chunks);
    process::output_is_bounded(chunks, limit);
    let (short, long) = (line.push('\n'), line.push('\r').push('\n'));
    encode_utf8_valid_utf8(short);
    encode_utf8_decode_utf8(short);
    encode_utf8_valid_utf8(long);
    encode_utf8_decode_utf8(long);
    assert(short.drop_last() =~= line);
    assert(long.drop_last() =~= line.push('\r'));
    assert(line.push('\r').drop_last() =~= line);
}

/// A command that was seen to end is collected; one that was not is killed from the moment its time
/// is up or nobody waits for it, and looked at again before.
pub proof fn commands_are_waited_for(
    exited: bool,
    elapsed_ms: u128,
    timeout_ms: u64,
    canceled: bool,
    action: WaitAction,
)
    requires
        call_ensures(process::wait_action, (exited, elapsed_ms, timeout_ms, canceled), action),
    ensures
        exited ==> action is Collect,
        !exited && canceled ==> action is Kill,
        !exited && elapsed_ms >= timeout_ms ==> action is Kill,
        !exited && !canceled && elapsed_ms < timeout_ms ==> action is Pause,
{
}

} // verus!
