//! Driving the printer through Marlin G-code commands.
use vstd::prelude::*;

use crate::fs::{extended, CString64, ExtendError};
use crate::text::{decimal, decimal_string};

verus! {

/// The text of a `heapless::c_string::ExtendError` (its `Display`).
pub open spec fn extend_error_text(e: ExtendError) -> Seq<char> {
    match e {
        ExtendError::Capacity => "insufficient capacity"@,
        ExtendError::InteriorNul { position } => "interior nul byte at "@ + decimal(
            position as nat,
        ),
    }
}

/// The text of an `ExtendError`, as `heapless` displays it.
pub fn extend_error_display(e: ExtendError) -> (r: String)
    ensures
        r@ == extend_error_text(e),
{
    match e {
        ExtendError::Capacity => <String as vstd::string::StringExecFns>::from_str(
            "insufficient capacity",
        ),
        ExtendError::InteriorNul { position } => {
            let mut s = <String as vstd::string::StringExecFns>::from_str("interior nul byte at ");
            let digits = crate::text::string_of(&decimal_string(position as u64));
            <String as vstd::string::StringExecFns>::append(&mut s, digits.as_str());
            s
        },
    }
}

/// The possible errors when sending a G-code command.
#[derive(PartialEq, Eq, Structural, Debug, Clone, Copy)]
pub enum Error {
    /// Marlin refused the command.
    MarlinReturnedFalse,
    /// The command did not fit.
    ExtendError(ExtendError),
    /// The printer is busy.
    Busy,
}

impl Error {
    pub open spec fn spec_message(self) -> Seq<char> {
        match self {
            Error::MarlinReturnedFalse => "Marlin returned false."@,
            Error::ExtendError(e) => "Error build gcode: "@ + extend_error_text(e) + "."@,
            Error::Busy => "the printer is is busy."@,
        }
    }

    /// The error's description.
    pub fn message(&self) -> (r: String)
        ensures
            r@ == self.spec_message(),
    {
        match self {
            Error::MarlinReturnedFalse => <String as vstd::string::StringExecFns>::from_str(
                "Marlin returned false.",
            ),
            Error::ExtendError(e) => {
                let mut s = <String as vstd::string::StringExecFns>::from_str(
                    "Error build gcode: ",
                );
                let t = extend_error_display(*e);
                <String as vstd::string::StringExecFns>::append(&mut s, t.as_str());
                <String as vstd::string::StringExecFns>::append(&mut s, ".");
                s
            },
            Error::Busy => <String as vstd::string::StringExecFns>::from_str(
                "the printer is is busy.",
            ),
        }
    }
}

/// The bytes of the command `M32 <path>` that prints the file at `path`,
/// built in a `CString<64>`.
pub open spec fn print_cmd(path: Seq<u8>) -> Result<Seq<u8>, ExtendError> {
    let head = extended(Seq::empty(), m32());
    match head.1 {
        Err(e) => Err(e),
        Ok(_) => {
            let full = extended(head.0, path);
            match full.1 {
                Err(e) => Err(e),
                Ok(_) => Ok(full.0),
            }
        },
    }
}

/// `M32 ` (select and start printing a file).
pub open spec fn m32() -> Seq<u8> {
    seq![77u8, 51u8, 50u8, 32u8]
}

/// `M111 S8` (dry run: no extrusion).
pub open spec fn m111_s8() -> Seq<u8> {
    seq![77u8, 49u8, 49u8, 49u8, 32u8, 83u8, 56u8]
}

/// `G28` (home all axes).
pub open spec fn g28() -> Seq<u8> {
    seq![71u8, 50u8, 56u8]
}

/// The commands that print the file at `path`, a dry run (no extrusion)
/// when `dry`: only an idle printer takes a job, and the command
/// `M32 <path>` must fit in a `CString<64>`; a dry run sends `M111 S8`
/// first.
pub open spec fn print_commands(path: Seq<u8>, dry: bool, idle: bool) -> Result<Seq<Seq<u8>>, Error> {
    if !idle {
        Err(Error::Busy)
    } else {
        match print_cmd(path) {
            Err(e) => Err(Error::ExtendError(e)),
            Ok(cmd) => Ok(
                if dry {
                    seq![m111_s8(), cmd]
                } else {
                    seq![cmd]
                },
            ),
        }
    }
}

/// The G-code views of a list of commands.
pub open spec fn commands_view(cmds: Seq<Vec<u8>>) -> Seq<Seq<u8>> {
    cmds.map_values(|c: Vec<u8>| c@)
}

/// The commands that print the file at `path` on a printer that is idle
/// (`idle`, as `is_idle` answered) or not, to be sent one by one with
/// `gcode_step`. A busy printer, or a command that does not fit, is sent
/// nothing.
pub fn print(path: &[u8], dry: bool, idle: bool) -> (r: Result<Vec<Vec<u8>>, Error>)
    ensures
        match print_commands(path@, dry, idle) {
            Err(e) => r == Err::<Vec<Vec<u8>>, Error>(e),
            Ok(cmds) => r matches Ok(v) && commands_view(v@) == cmds,
        },
{
    if !idle {
        return Err(Error::Busy);
    }
    let mut cmd = CString64::new();
    let head: [u8; 4] = [77u8, 51u8, 50u8, 32u8];
    assert(head@ == m32());
    match cmd.extend_from_bytes(&head) {
        Ok(()) => {},
        Err(e) => return Err(Error::ExtendError(e)),
    }
    match cmd.extend_from_bytes(path) {
        Ok(()) => {},
        Err(e) => return Err(Error::ExtendError(e)),
    }
    let cmd_bytes = cmd.to_bytes();
    let mut cmds: Vec<Vec<u8>> = Vec::new();
    if dry {
        let m111: Vec<u8> = vec![77u8, 49u8, 49u8, 49u8, 32u8, 83u8, 56u8];
        assert(m111@ == m111_s8());
        cmds.push(m111);
    }
    cmds.push(cmd_bytes);
    proof {
        assert(commands_view(cmds@) =~= print_commands(path@, dry, idle)->Ok_0);
    }
    Ok(cmds)
}

/// The commands that home the printer: `G28`, for an idle printer only.
pub open spec fn home_commands(idle: bool) -> Result<Seq<Seq<u8>>, Error> {
    if !idle {
        Err(Error::Busy)
    } else {
        Ok(seq![g28()])
    }
}

/// The commands that home the printer (`idle` as `is_idle` answered), to
/// be sent with `gcode_step`: a busy printer is sent nothing.
pub fn home(idle: bool) -> (r: Result<Vec<Vec<u8>>, Error>)
    ensures
        match home_commands(idle) {
            Err(e) => r == Err::<Vec<Vec<u8>>, Error>(e),
            Ok(cmds) => r matches Ok(v) && commands_view(v@) == cmds,
        },
{
    if !idle {
        return Err(Error::Busy);
    }
    let cmd: Vec<u8> = vec![71u8, 50u8, 56u8];
    let mut cmds: Vec<Vec<u8>> = Vec::new();
    cmds.push(cmd);
    proof {
        assert(commands_view(cmds@) =~= seq![g28()]);
    }
    Ok(cmds)
}

/// The next thing to do while sending a list of G-code commands.
#[derive(Debug, Clone, Copy)]
pub enum GcodeStep {
    /// Send the command at this index through `gcode`.
    Send(usize),
    /// Stop: the result of the whole list.
    Done(Result<(), Error>),
}

/// Sending goes through the commands in order, each once, while Marlin
/// accepts them: after `answers` (Marlin's answers to the first commands),
/// a refusal ends with `MarlinReturnedFalse` and nothing more is sent, and
/// once every command was accepted the result is `Ok`.
pub open spec fn gcode_step_spec(n: nat, answers: Seq<bool>) -> GcodeStep {
    if exists|i: int| 0 <= i < answers.len() && !answers[i] {
        GcodeStep::Done(Err(Error::MarlinReturnedFalse))
    } else if answers.len() < n {
        GcodeStep::Send(answers.len() as usize)
    } else {
        GcodeStep::Done(Ok(()))
    }
}

/// A list of commands ends well only when Marlin took every one of them:
/// whatever the answers so far, the result is `Ok` only once all `n`
/// commands were answered and every answer was `true`; any refusal ends
/// the list with `MarlinReturnedFalse`; and the command sent next is the
/// first one not answered yet, sent only while every answer so far was
/// `true`.
pub proof fn law_commands_end_well_only_when_all_taken(n: usize, answers: Seq<bool>)
    ensures
        gcode_step_spec(n as nat, answers) matches GcodeStep::Done(Ok(())) ==> answers.len() >= n && forall|
            i: int,
        |
            0 <= i < answers.len() ==> answers[i],
        (exists|i: int| 0 <= i < answers.len() && !answers[i]) ==> gcode_step_spec(n as nat, answers)
            matches GcodeStep::Done(Err(Error::MarlinReturnedFalse)),
        gcode_step_spec(n as nat, answers) matches GcodeStep::Send(k) ==> k == answers.len() && answers.len()
            < n && forall|i: int| 0 <= i < answers.len() ==> answers[i],
{
}

/// Decides what to send next of `n` commands, given Marlin's answers so
/// far.
pub fn gcode_step(n: usize, answers: &Vec<bool>) -> (r: GcodeStep)
    ensures
        r == gcode_step_spec(n as nat, answers@),
{
    let mut i: usize = 0;
    while i < answers.len()
        invariant
            i <= answers@.len(),
            forall|k: int| 0 <= k < i ==> answers@[k],
        decreases answers@.len() - i,
    {
        if !answers[i] {
            return GcodeStep::Done(Err(Error::MarlinReturnedFalse));
        }
        i = i + 1;
    }
    if answers.len() < n {
        GcodeStep::Send(answers.len())
    } else {
        GcodeStep::Done(Ok(()))
    }
}

} // verus!
