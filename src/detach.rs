use vstd::prelude::*;

verus! {

/// The argument that selects daemon mode: `--for-real`.
pub open spec fn daemon_flag_spec() -> Seq<char> {
    "--for-real"@
}

/// The argument that selects daemon mode.
pub fn daemon_flag() -> (r: String)
    ensures
        r@ == daemon_flag_spec(),
{
    "--for-real".to_owned()
}

/// Whether the program was started in daemon mode: its first argument after
/// the program name is the daemon flag.
pub fn is_daemon_mode(args: &Vec<String>) -> (r: bool)
    ensures
        r == (args@.len() >= 2 && args@[1]@ == daemon_flag_spec()),
{
    if args.len() < 2 {
        false
    } else {
        let flag = daemon_flag();
        args[1] == flag
    }
}

/// The argument list that re-executes `exe` in daemon mode.
pub fn daemon_argv(exe: &String) -> (r: Vec<String>)
    ensures
        r@.len() == 2,
        r@[0]@ == exe@,
        r@[1]@ == daemon_flag_spec(),
{
    let mut r: Vec<String> = Vec::new();
    r.push(exe.clone());
    r.push(daemon_flag());
    r
}

/// Which side of a fork the code runs on.
#[derive(PartialEq, Eq, Structural, Clone, Copy, Debug)]
pub enum ForkSide {
    /// The launching process, which goes on.
    Parent,
    /// The new process.
    Child,
    /// No process was created.
    Failed,
}

/// How a detachment ended in the process that sees the result.
#[derive(PartialEq, Eq, Debug)]
pub enum DetachOutcome {
    /// The launching process: a child was created and is left to itself.
    Launched,
    /// The launching process: no child could be created.
    ForkFailed,
    /// The child: it could not start a new session and must exit.
    SessionFailed,
    /// The child: re-execution failed, for the reason given; it must exit.
    ExecFailed(String),
}

/// What a fork leads to: the launching process is done at once, without
/// waiting for the child, with `Launched` if a child was created and
/// `ForkFailed` if not; the child (`None`) goes on to start a session.
pub fn after_fork(side: ForkSide) -> (r: Option<DetachOutcome>)
    ensures
        side is Parent ==> r matches Some(DetachOutcome::Launched),
        side is Failed ==> r matches Some(DetachOutcome::ForkFailed),
        side is Child ==> r is None,
{
    match side {
        ForkSide::Parent => Some(DetachOutcome::Launched),
        ForkSide::Failed => Some(DetachOutcome::ForkFailed),
        ForkSide::Child => None,
    }
}

/// What the child does once it tried to start a new session: if the session
/// started, re-execute `exe` in daemon mode with the returned arguments;
/// otherwise give up with `SessionFailed`, without re-executing.
pub fn after_session(started: bool, exe: &String) -> (r: Result<Vec<String>, DetachOutcome>)
    ensures
        !started ==> r matches Err(DetachOutcome::SessionFailed),
        started ==> (r matches Ok(argv) && argv@.len() == 2 && argv@[0]@ == exe@ && argv@[1]@
            == daemon_flag_spec()),
{
    if started {
        Ok(daemon_argv(exe))
    } else {
        Err(DetachOutcome::SessionFailed)
    }
}

/// Relies on fork::fork: creates a process; which side this is, or that it failed.
#[verifier::external_body]
fn fork_process() -> (r: ForkSide) {
    match fork::fork() {
        Ok(fork::Fork::Parent(_)) => ForkSide::Parent,
        Ok(fork::Fork::Child) => ForkSide::Child,
        Err(_) => ForkSide::Failed,
    }
}

/// Relies on fork::setsid: starts a new session; whether it succeeded.
#[verifier::external_body]
fn new_session() -> (r: bool) {
    fork::setsid().is_ok()
}

/// Relies on exec::execvp: replaces the process image with `program` run with
/// `args`; it returns only on failure, with the reason.
#[verifier::external_body]
fn replace_image(program: &String, args: &Vec<String>) -> (r: String) {
    let error = exec::execvp(program, args);
    format!("{}", error)
}

/// Launches a detached copy of `exe` in daemon mode, and returns which side
/// of the fork this is together with how the detachment ended there.
///
/// In the launching process this returns at once, `Launched` or `ForkFailed`
/// as `after_fork` decides, without waiting for the child. In the child it
/// starts a new session and, only if that succeeded, re-executes `exe` with
/// the arguments `after_session` gives; it returns there only on failure,
/// `SessionFailed` or `ExecFailed` with the reason, and the caller must then
/// end the child.
pub fn detach(exe: &String) -> (r: (ForkSide, DetachOutcome))
    ensures
        r.0 is Parent ==> r.1 is Launched,
        r.0 is Failed ==> r.1 is ForkFailed,
        r.0 is Child ==> r.1 is SessionFailed || r.1 is ExecFailed,
{
    let side = fork_process();
    match after_fork(side) {
        Some(outcome) => (side, outcome),
        None => {
            let started = new_session();
            match after_session(started, exe) {
                Ok(argv) => (side, DetachOutcome::ExecFailed(replace_image(exe, &argv))),
                Err(outcome) => (side, outcome),
            }
        },
    }
}

} // verus!
