//! The single entry point for `git` command-line invocations: the command
//! line it builds, the check of `git --version` output that admits a gateway,
//! and what a finished command's output means. Spawning the process and
//! waiting for it, with the gateway's timeout, is the caller's part.

use vstd::prelude::*;
use vstd::utf8::*;
use crate::text::{
    append_chars, chars_of, decode_lossy, int_text, spec_int_text, spec_trim, starts_with,
    string_chars, string_of, svs, trim, utf8_lossy,
};

verus! {

/// The timeout of a gateway built without one, in seconds.
pub const DEFAULT_TIMEOUT_SECS: u64 = 120;

/// Why a git invocation did not produce an output.
#[derive(Debug)]
pub enum GitCliError {
    /// `git` could not be started; carries the command and the reason.
    NotFound(String),
    /// The command ran longer than the gateway's timeout (whole seconds
    /// and the nanoseconds beyond them).
    Timeout { command: String, timeout_secs: u64, timeout_nanos: u32 },
    /// The command exited unsuccessfully.
    Failed { command: String, exit_code: String },
    /// Reading the command's output failed; carries the reason.
    Io(String),
}

/// The captured result of a finished git command. `exit_code` is `None`
/// when the process was ended by a signal.
#[derive(Debug)]
pub struct GitOutput {
    pub stdout: Vec<u8>,
    pub stderr: Vec<u8>,
    pub exit_code: Option<i32>,
    pub command: String,
}

/// The text of an exit status in messages: the code, or `signal`.
pub open spec fn spec_exit_text(code: Option<i32>) -> Seq<char> {
    match code {
        Some(c) => spec_int_text(c as int),
        None => "signal"@,
    }
}

/// The message of a failed command: `git <command> failed (<status>): <stderr>`
/// with the standard error decoded and trimmed.
pub open spec fn spec_failure_message(command: Seq<char>, code: Option<i32>, stderr: Seq<u8>) -> Seq<char> {
    "git "@ + command + " failed ("@ + spec_exit_text(code) + "): "@ + spec_trim(utf8_lossy(stderr))
}

impl GitOutput {
    /// Whether the command exited with status zero.
    pub fn success(&self) -> (b: bool)
        ensures
            b == (self.exit_code == Some(0i32)),
    {
        match self.exit_code {
            Some(c) => c == 0,
            None => false,
        }
    }

    /// The standard output, decoded leniently.
    pub fn stdout_str(&self) -> (s: String)
        ensures
            s@ == utf8_lossy(self.stdout@),
    {
        decode_lossy(self.stdout.as_slice())
    }

    /// The standard error, decoded leniently.
    pub fn stderr_str(&self) -> (s: String)
        ensures
            s@ == utf8_lossy(self.stderr@),
    {
        decode_lossy(self.stderr.as_slice())
    }

    /// `Ok` when the command succeeded, else the failure message.
    pub fn ensure_success(&self) -> (r: Result<(), String>)
        ensures
            r is Ok <==> self.exit_code == Some(0i32),
            r matches Err(m) ==> m@ == spec_failure_message(self.command@, self.exit_code, self.stderr@),
    {
        if self.success() {
            return Ok(());
        }
        let mut m = chars_of("git ");
        append_chars(&mut m, string_chars(&self.command).as_slice());
        append_chars(&mut m, chars_of(" failed (").as_slice());
        match self.exit_code {
            Some(c) => append_chars(&mut m, int_text(c as i64).as_slice()),
            None => append_chars(&mut m, chars_of("signal").as_slice()),
        }
        append_chars(&mut m, chars_of("): ").as_slice());
        let err = self.stderr_str();
        append_chars(&mut m, trim(string_chars(&err).as_slice()).as_slice());
        Err(string_of(m.as_slice()))
    }
}

/// The number of nanoseconds in a second.
pub const NANOS_PER_SEC: u32 = 1_000_000_000;

/// A validated way to run git, with the timeout its synchronous runs get:
/// whole seconds and the nanoseconds beyond them, as a `Duration` holds it.
#[derive(Debug, Clone)]
pub struct GitCommandGateway {
    timeout_secs: u64,
    timeout_nanos: u32,
}

impl View for GitCommandGateway {
    type V = (u64, u32);

    /// The timeout: whole seconds, then nanoseconds.
    closed spec fn view(&self) -> (u64, u32) {
        (self.timeout_secs, self.timeout_nanos)
    }
}

impl Default for GitCommandGateway {
    fn default() -> (g: Self)
        ensures
            g@ == (DEFAULT_TIMEOUT_SECS, 0u32),
    {
        GitCommandGateway { timeout_secs: DEFAULT_TIMEOUT_SECS, timeout_nanos: 0 }
    }
}

/// Whether `git --version` printed what git prints.
pub open spec fn version_accepted(version: GitOutput) -> bool {
    "git version"@.is_prefix_of(utf8_lossy(version.stdout@))
}

/// The refusal of an unexpected `git --version` output.
pub open spec fn version_refusal(version: GitOutput) -> Seq<char> {
    "unexpected git --version output: "@ + spec_trim(utf8_lossy(version.stdout@))
}

/// Check the output of `git --version`.
fn check_version(version: &GitOutput) -> (r: Result<(), String>)
    ensures
        r is Ok <==> version_accepted(*version),
        r matches Err(m) ==> m@ == version_refusal(*version),
{
    let out = string_chars(&version.stdout_str());
    if starts_with(out.as_slice(), chars_of("git version").as_slice()) {
        Ok(())
    } else {
        let mut m = chars_of("unexpected git --version output: ");
        append_chars(&mut m, trim(out.as_slice()).as_slice());
        Err(string_of(m.as_slice()))
    }
}

/// `-C <repo>` when a repository is given, then the arguments.
pub open spec fn spec_command_line(args: Seq<Seq<char>>, repo_path: Option<Seq<char>>) -> Seq<Seq<char>> {
    match repo_path {
        Some(p) => seq!["-C"@, p] + args,
        None => args,
    }
}

impl GitCommandGateway {
    /// The gateway with the default timeout, admitted by the output of
    /// `git --version`.
    pub fn new(version: &GitOutput) -> (r: Result<Self, String>)
        ensures
            r is Ok <==> version_accepted(*version),
            r matches Ok(g) ==> g@ == (DEFAULT_TIMEOUT_SECS, 0u32),
            r matches Err(m) ==> m@ == version_refusal(*version),
    {
        match check_version(version) {
            Ok(()) => Ok(GitCommandGateway::default()),
            Err(m) => Err(m),
        }
    }

    /// A gateway with the given timeout (whole seconds and the nanoseconds
    /// beyond them), admitted by the output of `git --version` run under
    /// that timeout.
    pub fn with_timeout(timeout_secs: u64, timeout_nanos: u32, version: &GitOutput) -> (r: Result<Self, String>)
        requires
            timeout_nanos < NANOS_PER_SEC,
        ensures
            r is Ok <==> version_accepted(*version),
            r matches Ok(g) ==> g@ == (timeout_secs, timeout_nanos),
            r matches Err(m) ==> m@ == version_refusal(*version),
    {
        match check_version(version) {
            Ok(()) => Ok(GitCommandGateway { timeout_secs, timeout_nanos }),
            Err(m) => Err(m),
        }
    }

    /// The whole seconds of the timeout of synchronous runs.
    pub fn timeout_secs(&self) -> (t: u64)
        ensures
            t == self@.0,
    {
        self.timeout_secs
    }

    /// The nanoseconds of the timeout beyond its whole seconds.
    pub fn timeout_subsec_nanos(&self) -> (n: u32)
        ensures
            n == self@.1,
    {
        self.timeout_nanos
    }

    /// The full argument list of a run: `-C <repo>` when a repository is
    /// given, then the arguments.
    pub fn build_command_line(&self, args: &[&str], repo_path: Option<&str>) -> (full: Vec<String>)
        ensures
            svs(full@) == spec_command_line(
                args@.map_values(|a: &str| a@),
                match repo_path {
                    Some(p) => Some(p@),
                    None => None,
                },
            ),
    {
        let mut full: Vec<String> = Vec::new();
        let ghost av = args@.map_values(|a: &str| a@);
        match repo_path {
            Some(p) => {
                full.push(String::from_str("-C"));
                full.push(String::from_str(p));
            },
            None => {},
        }
        let ghost start = svs(full@);
        let mut i: usize = 0;
        assert(av.take(0) =~= Seq::<Seq<char>>::empty());
        while i < args.len()
            invariant
                i <= args@.len(),
                av == args@.map_values(|a: &str| a@),
                svs(full@) == start + av.take(i as int),
            decreases args@.len() - i,
        {
            let ghost before = svs(full@);
            full.push(String::from_str(args[i]));
            assert(svs(full@) =~= before.push(av[i as int]));
            assert(av.take(i + 1) =~= av.take(i as int).push(av[i as int]));
            i = i + 1;
        }
        assert(av.take(args@.len() as int) =~= av);
        assert(svs(full@) =~= spec_command_line(av, match repo_path {
            Some(p) => Some(p@),
            None => None,
        }));
        full
    }

    /// `Ok` when the finished run succeeded, else its failure message.
    pub fn run_or_bail(&self, output: &GitOutput) -> (r: Result<(), String>)
        ensures
            r is Ok <==> output.exit_code == Some(0i32),
            r matches Err(m) ==> m@ == spec_failure_message(output.command@, output.exit_code, output.stderr@),
    {
        output.ensure_success()
    }
}

} // verus!
