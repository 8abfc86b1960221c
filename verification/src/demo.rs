//! The scripted client: a shell on a pseudo-terminal, driven by a fixed
//! list of commands typed one key at a time.

use vstd::prelude::*;
use vstd::string::*;
use vstd::utf8::encode_utf8;

verus! {

/// End of transmission (Ctrl-D), typed to close the shell.
pub const END_OF_TRANSMISSION: u8 = 4;

/// The line feed typed after each command.
pub const ENTER: u8 = 10;

/// The shell used when `SHELL` is not set.
pub const DEFAULT_SHELL: &'static str = "/bin/sh";

/// Number of commands in the script.
pub const SCRIPT_LEN: usize = 10;

/// The commands of the script, in the order they are typed.
pub open spec fn script_command(i: int) -> Seq<char> {
    if i == 0 {
        "echo 'Hello, World!'"@
    } else if i == 1 {
        "ls"@
    } else if i == 2 {
        "vi demo.txt"@
    } else if i == 3 {
        "iHello, World!\x1b"@
    } else if i == 4 {
        "ccRaw mode works!\x1b"@
    } else if i == 5 {
        "yy12p"@
    } else if i == 6 {
        ":wq"@
    } else if i == 7 {
        "ls"@
    } else if i == 8 {
        "echo \"there's our file\""@
    } else {
        "bat demo.txt"@
    }
}

/// The keys of the `i`-th command of the script, or `None` past its end.
pub fn script_keys(i: usize) -> (r: Option<Vec<u8>>)
    ensures
        r is Some <==> i < SCRIPT_LEN,
        r is Some ==> r->0@ == encode_utf8(script_command(i as int)),
{
    let text: &str = if i == 0 {
        "echo 'Hello, World!'"
    } else if i == 1 {
        "ls"
    } else if i == 2 {
        "vi demo.txt"
    } else if i == 3 {
        "iHello, World!\x1b"
    } else if i == 4 {
        "ccRaw mode works!\x1b"
    } else if i == 5 {
        "yy12p"
    } else if i == 6 {
        ":wq"
    } else if i == 7 {
        "ls"
    } else if i == 8 {
        "echo \"there's our file\""
    } else if i == 9 {
        "bat demo.txt"
    } else {
        return None;
    };
    Some(text.as_bytes_vec())
}

/// What the scripted client does at a tick of its clock.
pub enum DemoAction {
    /// Type these keys one at a time, then `ENTER`.
    Type(Vec<u8>),
    /// The script is done: type `END_OF_TRANSMISSION` and stop the shell.
    Finish,
}

/// Progress through the script: the index of the next command.
pub struct DemoScript {
    pub next: usize,
}

impl DemoScript {
    /// A script at its first command.
    pub fn new() -> (s: Self)
        ensures
            s.next == 0,
    {
        DemoScript { next: 0 }
    }

    /// The next command's keys, in order, until the script is done; past
    /// its end the script stays where it is and is done.
    pub fn tick(&mut self) -> (r: DemoAction)
        ensures
            old(self).next < SCRIPT_LEN ==> final(self).next == old(self).next + 1,
            old(self).next < SCRIPT_LEN ==> (r matches DemoAction::Type(keys) && keys@ == encode_utf8(
                script_command(old(self).next as int),
            )),
            old(self).next >= SCRIPT_LEN ==> final(self).next == old(self).next && r is Finish,
    {
        match script_keys(self.next) {
            Some(keys) => {
                self.next = self.next + 1;
                DemoAction::Type(keys)
            },
            None => DemoAction::Finish,
        }
    }
}

/// Written before the terminal's output is copied.
pub const PTY_START: &'static str = "\n\n";

/// Written when the terminal closes.
pub const PTY_CLOSED: &'static str = "big sads\n";

/// What a read from the pseudo-terminal gave.
pub enum PtyRead {
    /// These bytes were read; none at all means the terminal closed.
    Data(Vec<u8>),
    /// The read failed.
    Failed,
}

/// What the reader of the pseudo-terminal does next.
pub enum PtyAction {
    /// Write these bytes to standard output and read on.
    Forward(Vec<u8>),
    /// Write these bytes to standard output and stop reading.
    Stop(Vec<u8>),
}

/// A read taken by its view: the bytes read, or `None` for a failure.
pub open spec fn pty_read_view(r: PtyRead) -> Option<Seq<u8>> {
    match r {
        PtyRead::Data(d) => Some(d@),
        PtyRead::Failed => None,
    }
}

/// What a read makes the reader write, and whether it stops: bytes are
/// copied out, zero bytes end the session with `PTY_CLOSED`, and a failure
/// ends it silently.
pub open spec fn pty_effect(read: Option<Seq<u8>>) -> (Seq<u8>, bool) {
    match read {
        Some(d) => if d.len() == 0 {
            (encode_utf8(PTY_CLOSED@), true)
        } else {
            (d, false)
        },
        None => (seq![], true),
    }
}

/// An action taken by its view: the bytes to write, and whether it stops.
pub open spec fn pty_action_view(a: PtyAction) -> (Seq<u8>, bool) {
    match a {
        PtyAction::Forward(d) => (d@, false),
        PtyAction::Stop(d) => (d@, true),
    }
}

/// The reader's decision after a read.
pub fn pty_step(read: PtyRead) -> (r: PtyAction)
    ensures
        pty_action_view(r) == pty_effect(pty_read_view(read)),
{
    match read {
        PtyRead::Data(d) => if d.len() == 0 {
            PtyAction::Stop(PTY_CLOSED.as_bytes_vec())
        } else {
            PtyAction::Forward(d)
        },
        PtyRead::Failed => PtyAction::Stop(Vec::new()),
    }
}

/// Everything the reader writes for a run of reads, after `PTY_START`, up
/// to the read that stops it.
pub open spec fn pty_output(reads: Seq<Option<Seq<u8>>>) -> Seq<u8>
    decreases reads.len(),
{
    if reads.len() == 0 {
        seq![]
    } else {
        let (w, stop) = pty_effect(reads[0]);
        if stop {
            w
        } else {
            w + pty_output(reads.drop_first())
        }
    }
}

/// The reader copies everything it reads up to the end: for chunks of one
/// or more bytes followed by an empty read, what it writes is the chunks in
/// order followed by `PTY_CLOSED`, whatever reads come after.
pub proof fn lemma_pty_copies_until_closed(chunks: Seq<Seq<u8>>, after: Seq<Option<Seq<u8>>>)
    requires
        forall|i: int| 0 <= i < chunks.len() ==> (#[trigger] chunks[i]).len() > 0,
    ensures
        pty_output(chunks.map_values(|c: Seq<u8>| Some(c)) + seq![Some(Seq::<u8>::empty())] + after)
            == chunks.flatten() + encode_utf8(PTY_CLOSED@),
    decreases chunks.len(),
{
    let reads = chunks.map_values(|c: Seq<u8>| Some(c)) + seq![Some(Seq::<u8>::empty())] + after;
    if chunks.len() == 0 {
        assert(reads[0] == Some(Seq::<u8>::empty()));
        assert(chunks.flatten() =~= Seq::<u8>::empty());
        assert(Seq::<u8>::empty() + encode_utf8(PTY_CLOSED@) =~= encode_utf8(PTY_CLOSED@));
    } else {
        let rest = chunks.drop_first();
        assert forall|i: int| 0 <= i < rest.len() implies (#[trigger] rest[i]).len() > 0 by {
            assert(rest[i] == chunks[i + 1]);
        }
        lemma_pty_copies_until_closed(rest, after);
        let rest_reads = rest.map_values(|c: Seq<u8>| Some(c)) + seq![Some(Seq::<u8>::empty())] + after;
        assert(reads[0] == Some(chunks[0]));
        assert(reads.drop_first() =~= rest_reads);
        assert(chunks.flatten() =~= chunks[0] + rest.flatten());
        assert(chunks[0] + (rest.flatten() + encode_utf8(PTY_CLOSED@)) =~= chunks[0] + rest.flatten() + encode_utf8(PTY_CLOSED@));
    }
}

/// The shell to run: the value of `SHELL`, or `DEFAULT_SHELL`.
pub fn shell_or_default(shell_var: Option<String>) -> (r: String)
    ensures
        shell_var matches Some(s) ==> r == s,
        shell_var is None ==> r@ == DEFAULT_SHELL@,
{
    match shell_var {
        Some(s) => s,
        None => String::from_str(DEFAULT_SHELL),
    }
}

} // verus!
