//! What becomes of a command while it runs and of the output that it leaves.

use crate::capability;
use crate::hygiene::{wipe_bytes, wipe_text};
use crate::text::{copy_bytes, text_from_utf8};
use vstd::prelude::*;
use vstd::slice::slice_subrange;
use vstd::string::*;
use vstd::utf8::*;

verus! {

/// The first bytes of an output, and whether there were more.
#[derive(PartialEq, Eq)]
pub struct BoundedOutput {
    /// The bytes that were kept.
    pub bytes: Vec<u8>,
    /// Whether some bytes were dropped.
    pub overflow: bool,
}

/// How many of `more` bytes still fit behind `kept` bytes under `limit`.
pub open spec fn retained(kept: nat, more: nat, limit: nat) -> nat {
    if kept >= limit {
        0
    } else if limit - kept < more {
        (limit - kept) as nat
    } else {
        more
    }
}

/// An output after one more chunk: the bytes kept, and whether some were dropped.
pub open spec fn absorbed(kept: (Seq<u8>, bool), chunk: Seq<u8>, limit: nat) -> (Seq<u8>, bool) {
    let fitting = retained(kept.0.len(), chunk.len(), limit);
    (kept.0 + chunk.take(fitting as int), kept.1 || fitting < chunk.len())
}

/// An output after these chunks, in order.
pub open spec fn absorbed_all(chunks: Seq<Seq<u8>>, limit: nat) -> (Seq<u8>, bool)
    decreases chunks.len(),
{
    if chunks.len() == 0 {
        (Seq::empty(), false)
    } else {
        absorbed(absorbed_all(chunks.drop_last(), limit), chunks.last(), limit)
    }
}

/// All that these chunks hold, in order.
pub open spec fn joined(chunks: Seq<Seq<u8>>) -> Seq<u8>
    decreases chunks.len(),
{
    if chunks.len() == 0 {
        Seq::empty()
    } else {
        joined(chunks.drop_last()) + chunks.last()
    }
}

/// However an output is cut into chunks, its first `limit` bytes are kept, and it overflows
/// exactly if it is longer than that.
pub proof fn output_is_bounded(chunks: Seq<Seq<u8>>, limit: nat)
    ensures
        absorbed_all(chunks, limit).0 == if joined(chunks).len() > limit {
            joined(chunks).take(limit as int)
        } else {
            joined(chunks)
        },
        absorbed_all(chunks, limit).1 == (joined(chunks).len() > limit),
    decreases chunks.len(),
{
    if chunks.len() > 0 {
        let before = joined(chunks.drop_last());
        let chunk = chunks.last();
        let kept = absorbed_all(chunks.drop_last(), limit).0;
        output_is_bounded(chunks.drop_last(), limit);
        let fitting = retained(kept.len(), chunk.len(), limit);
        if before.len() + chunk.len() > limit {
            assert(kept + chunk.take(fitting as int) =~= (before + chunk).take(limit as int));
        } else {
            assert(kept + chunk.take(fitting as int) =~= before + chunk);
        }
    }
}

impl View for BoundedOutput {
    type V = (Seq<u8>, bool);

    open spec fn view(&self) -> (Seq<u8>, bool) {
        (self.bytes@, self.overflow)
    }
}

impl BoundedOutput {
    /// An output of which nothing was read yet.
    pub fn new() -> (output: Self)
        ensures
            output@ == (Seq::<u8>::empty(), false),
    {
        BoundedOutput { bytes: Vec::new(), overflow: false }
    }

    /// Keeps what fits of one more chunk.
    pub fn absorb(&mut self, chunk: &[u8], limit: usize)
        ensures
            final(self)@ == absorbed(old(self)@, chunk@, limit as nat),
    {
        let remaining: usize = if self.bytes.len() < limit {
            limit - self.bytes.len()
        } else {
            0
        };
        let fitting: usize = if remaining < chunk.len() {
            remaining
        } else {
            chunk.len()
        };
        self.bytes.extend_from_slice(slice_subrange(chunk, 0, fitting));
        assert(self.bytes@ =~= old(self).bytes@ + chunk@.take(fitting as int));
        if fitting < chunk.len() {
            self.overflow = true;
        }
    }
}

/// A text without the line ending that it may have at its end: one line feed, and one carriage
/// return before it.
pub open spec fn without_line_ending(text: Seq<char>) -> Seq<char> {
    if text.len() > 0 && text.last() == '\n' {
        let line = text.drop_last();
        if line.len() > 0 && line.last() == '\r' {
            line.drop_last()
        } else {
            line
        }
    } else {
        text
    }
}

/// One line ending is taken off, and no more than one: what stands before it stays, even where
/// it ends in a line feed itself.
pub proof fn one_line_ending_is_stripped(text: Seq<char>)
    ensures
        without_line_ending(text + seq!['\r', '\n']) == text,
        !(text.len() > 0 && text.last() == '\r') ==> without_line_ending(text + seq!['\n']) == text,
        without_line_ending(text + seq!['\n', '\n']) == text + seq!['\n'],
        !(text.len() > 0 && text.last() == '\n') ==> without_line_ending(text) == text,
{
    let with_both = text + seq!['\r', '\n'];
    assert(with_both.drop_last() =~= text + seq!['\r']);
    assert((text + seq!['\r']).drop_last() =~= text);
    assert((text + seq!['\n']).drop_last() =~= text);
    assert((text + seq!['\n', '\n']).drop_last() =~= text + seq!['\n']);
}

/// The secret in the output of a command that ended well or not, if there is one.
pub open spec fn secret_in(success: bool, output: (Seq<u8>, bool)) -> Option<Seq<char>> {
    if !success || output.1 || !valid_utf8(output.0) {
        None
    } else {
        let secret = without_line_ending(decode_utf8(output.0));
        if secret.len() == 0 {
            None
        } else {
            Some(secret)
        }
    }
}

/// However the output of a command is cut into chunks, its secret is the one in all that it wrote,
/// unless it wrote more than `limit` bytes: then there is none.
pub proof fn secret_does_not_depend_on_chunks(success: bool, chunks: Seq<Seq<u8>>, limit: nat)
    ensures
        secret_in(success, absorbed_all(chunks, limit)) == if joined(chunks).len() <= limit {
            secret_in(success, (joined(chunks), false))
        } else {
            None
        },
{
    output_is_bounded(chunks, limit);
}

/// A copy of `text` without the line ending that it may have at its end.
fn strip_line_ending(text: &str) -> (line: String)
    ensures
        line@ == without_line_ending(text@),
{
    let mut end: usize = text.unicode_len();
    if end > 0 && text.get_char(end - 1) == '\n' {
        end -= 1;
        if end > 0 && text.get_char(end - 1) == '\r' {
            end -= 1;
        }
    }
    assert(text@.subrange(0, end as int) =~= without_line_ending(text@));
    text.substring_char(0, end).to_owned()
}

/// Takes the secret out of the output of a command, which is overwritten. The output is refused
/// where the command failed, wrote too much, wrote no text or wrote nothing but a line ending.
pub fn accept_output(success: bool, output: BoundedOutput) -> (secret: Result<String, ()>)
    ensures
        capability::text_of(secret) == secret_in(success, output@),
{
    let BoundedOutput { mut bytes, overflow } = output;
    if !success || overflow {
        wipe_bytes(&mut bytes);
        return Err(());
    }
    let parsed = text_from_utf8(copy_bytes(&bytes));
    wipe_bytes(&mut bytes);
    let mut text = match parsed {
        Ok(text) => text,
        Err(()) => {
            return Err(());
        },
    };
    let secret = strip_line_ending(text.as_str());
    wipe_text(&mut text);
    if secret.as_str().is_empty() {
        return Err(());
    }
    Ok(secret)
}

/// What to do with a command that was started.
#[derive(Clone, Copy, Debug, PartialEq, Eq, Structural)]
pub enum WaitAction {
    /// It has ended: take its exit status.
    Collect,
    /// Its time is up, or nobody waits for it any more: kill it and fail.
    Kill,
    /// Look again after a pause.
    Pause,
}

/// What to do with a command: an exit that was seen counts, even where the time is up.
pub fn wait_action(exited: bool, elapsed_ms: u128, timeout_ms: u64, canceled: bool) -> (action:
    WaitAction)
    ensures
        action == WaitAction::Collect <==> exited,
        action == WaitAction::Kill <==> !exited && (elapsed_ms >= timeout_ms || canceled),
        action == WaitAction::Pause <==> !exited && elapsed_ms < timeout_ms && !canceled,
{
    if exited {
        WaitAction::Collect
    } else if elapsed_ms >= timeout_ms as u128 || canceled {
        WaitAction::Kill
    } else {
        WaitAction::Pause
    }
}

/// A secret comes only from a command that ended well and whose output was kept whole, and is not
/// empty.
pub proof fn secrets_come_from_whole_outputs(success: bool, chunks: Seq<Seq<u8>>, limit: nat)
    requires
        secret_in(success, absorbed_all(chunks, limit)) is Some,
    ensures
        success,
        joined(chunks).len() <= limit,
        valid_utf8(joined(chunks)),
        secret_in(success, absorbed_all(chunks, limit)) == Some(
            without_line_ending(decode_utf8(joined(chunks))),
        ),
        without_line_ending(decode_utf8(joined(chunks))).len() > 0,
{
    output_is_bounded(chunks, limit);
}

} // verus!
