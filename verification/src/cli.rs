//! The command line: which action the arguments ask for.
use vstd::prelude::*;
use vstd::string::*;
use crate::text::{chars_of, chars_equal_str};

verus! {

/// What the program was asked to do.
#[derive(Clone, Debug)]
pub enum Command {
    /// Print the version.
    Version,
    /// Print the model catalog as JSON.
    ListModels,
    /// Open the window.
    Window,
    /// Install the local runtime.
    SetupRuntime,
    /// Check the runtime and report memory.
    Doctor,
    /// Transcribe (and clean up) the WAV file at this path.
    Transcribe(String),
    /// `--transcribe` without exactly one path.
    TranscribeUsage,
    /// An option the program does not know.
    Unknown,
}

/// Some argument equals `a`.
pub open spec fn has_arg(args: Seq<String>, a: Seq<char>) -> bool {
    exists|i: int| 0 <= i < args.len() && (#[trigger] args[i])@ == a
}

fn find_arg(args: &Vec<String>, a: &str) -> (r: bool)
    ensures
        r == has_arg(args@, a@),
{
    let mut i: usize = 0;
    while i < args.len()
        invariant
            i <= args.len(),
            forall|j: int| 0 <= j < i ==> (#[trigger] args@[j])@ != a@,
        decreases args.len() - i,
    {
        if chars_equal_str(&chars_of(a), args[i].as_str()) {
            return true;
        }
        i += 1;
    }
    false
}

/// The command the arguments (program name first) ask for: `--version` or
/// `--list-models` anywhere win, in that order; without arguments the window opens;
/// otherwise the first argument names the command.
pub fn parse_command(args: &Vec<String>) -> (c: Command)
    ensures
        has_arg(args@, "--version"@) ==> c is Version,
        !has_arg(args@, "--version"@) && has_arg(args@, "--list-models"@) ==> c is ListModels,
        !has_arg(args@, "--version"@) && !has_arg(args@, "--list-models"@) ==> {
            &&& args@.len() <= 1 ==> c is Window
            &&& args@.len() > 1 && args@[1]@ == "--setup-runtime"@ ==> c is SetupRuntime
            &&& args@.len() > 1 && args@[1]@ == "--doctor"@ ==> c is Doctor
            &&& args@.len() > 1 && args@[1]@ == "--transcribe"@ ==> if args@.len() == 3 {
                c matches Command::Transcribe(p) && p@ == args@[2]@
            } else {
                c is TranscribeUsage
            }
            &&& args@.len() > 1 && args@[1]@ != "--setup-runtime"@ && args@[1]@ != "--doctor"@
                && args@[1]@ != "--transcribe"@ ==> c is Unknown
        },
{
    if find_arg(args, "--version") {
        return Command::Version;
    }
    if find_arg(args, "--list-models") {
        return Command::ListModels;
    }
    if args.len() <= 1 {
        return Command::Window;
    }
    let first = chars_of(args[1].as_str());
    proof {
        reveal_strlit("--setup-runtime");
        reveal_strlit("--doctor");
        reveal_strlit("--transcribe");
        assert("--setup-runtime"@.len() == 15);
        assert("--doctor"@.len() == 8);
        assert("--transcribe"@.len() == 12);
    }
    if chars_equal_str(&first, "--setup-runtime") {
        Command::SetupRuntime
    } else if chars_equal_str(&first, "--doctor") {
        Command::Doctor
    } else if chars_equal_str(&first, "--transcribe") {
        if args.len() == 3 {
            Command::Transcribe(args[2].clone())
        } else {
            Command::TranscribeUsage
        }
    } else {
        Command::Unknown
    }
}

} // verus!
