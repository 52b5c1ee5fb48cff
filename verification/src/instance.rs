//! One instance per user: what a launch does with the instance socket, and how long a launch that
//! hands its file over waits for the owner.
use vstd::prelude::*;

verus! {

/// How long to wait for an owner that is not there yet or is busy, in milliseconds.
pub const CONNECT_TIMEOUT_MS: u64 = 2000;

/// How long to wait for an owner that refuses, in milliseconds.
pub const REFUSED_TIMEOUT_MS: u64 = 150;

/// How long to sleep between two attempts, in milliseconds.
pub const RETRY_SLEEP_MS: u64 = 25;

/// Why a connection failed.
#[derive(Debug, Clone, Copy, PartialEq, Eq, Structural)]
pub enum ConnectError {
    /// There is no socket yet.
    NotFound,
    /// Every instance of the pipe is taken.
    PipeBusy,
    /// Nobody listens.
    Refused,
    Other,
}

/// How long a failure is worth retrying.
pub open spec fn patience(e: ConnectError, timeout: u64) -> u64 {
    match e {
        ConnectError::NotFound | ConnectError::PipeBusy => timeout,
        ConnectError::Refused => if timeout < REFUSED_TIMEOUT_MS {
            timeout
        } else {
            REFUSED_TIMEOUT_MS
        },
        ConnectError::Other => 0,
    }
}

/// How long a failure is worth retrying, in milliseconds.
pub fn budget(e: ConnectError, timeout: u64) -> (ms: u64)
    ensures
        ms == patience(e, timeout),
{
    match e {
        ConnectError::NotFound => timeout,
        ConnectError::PipeBusy => timeout,
        ConnectError::Refused => if timeout < REFUSED_TIMEOUT_MS {
            timeout
        } else {
            REFUSED_TIMEOUT_MS
        },
        ConnectError::Other => 0,
    }
}

/// What to do about a failed connection.
#[derive(Debug, Clone, Copy, PartialEq, Eq, Structural)]
pub enum Retry {
    /// Sleep this many milliseconds and try again.
    After(u64),
    GiveUp,
}

/// What to do about a failure `elapsed` milliseconds into the attempt.
pub fn connect_retry(e: ConnectError, elapsed: u64, timeout: u64) -> (r: Retry)
    ensures
        r == if elapsed < patience(e, timeout) {
            Retry::After(RETRY_SLEEP_MS)
        } else {
            Retry::GiveUp
        },
        r == retried(e, elapsed, timeout),
{
    if elapsed < budget(e, timeout) {
        Retry::After(RETRY_SLEEP_MS)
    } else {
        Retry::GiveUp
    }
}

/// However the attempts fail, they end once the timeout has passed, and a failure of another kind
/// ends them at once.
pub proof fn law_retries_end(e: ConnectError, elapsed: u64, timeout: u64)
    ensures
        elapsed >= timeout ==> elapsed >= patience(e, timeout),
        patience(ConnectError::Other, timeout) == 0,
        patience(e, timeout) <= timeout,
{
}

/// Why the socket could not be bound.
#[derive(Debug, Clone, Copy, PartialEq, Eq, Structural)]
pub enum BindError {
    /// The address is in use.
    AddrInUse,
    /// The first instance of the pipe belongs to someone else.
    PermissionDenied,
    Other,
}

/// Whether a failed bind means that another process owns the socket.
pub fn is_taken(e: BindError) -> (r: bool)
    ensures
        r == (e == BindError::AddrInUse || e == BindError::PermissionDenied),
{
    match e {
        BindError::AddrInUse => true,
        BindError::PermissionDenied => true,
        BindError::Other => false,
    }
}

/// What a launch has learnt.
#[derive(Debug, Clone, Copy, PartialEq, Eq, Structural)]
pub enum LaunchEvent {
    Bound,
    BindFailed(BindError),
    Forwarded,
    ForwardFailed,
    Reclaimed,
    ReclaimFailed,
}

/// What a launch does next.
#[derive(Debug, Clone, Copy, PartialEq, Eq, Structural)]
pub enum LaunchStep {
    /// Own the socket: run, and take what other launches hand over.
    Serve,
    /// Hand the file to the owner.
    Forward,
    /// The owner has it: exit.
    Exit,
    /// Nobody answered a name that was taken: reclaim it.
    Reclaim,
    /// Run without the socket.
    RunAlone,
}

/// What a launch does next.
pub open spec fn launch_next(e: LaunchEvent) -> LaunchStep {
    match e {
        LaunchEvent::Bound | LaunchEvent::Reclaimed => LaunchStep::Serve,
        LaunchEvent::BindFailed(BindError::Other) => LaunchStep::RunAlone,
        LaunchEvent::BindFailed(_) => LaunchStep::Forward,
        LaunchEvent::Forwarded => LaunchStep::Exit,
        LaunchEvent::ForwardFailed => LaunchStep::Reclaim,
        LaunchEvent::ReclaimFailed => LaunchStep::RunAlone,
    }
}

/// What a launch does next.
pub fn launch_step(e: LaunchEvent) -> (s: LaunchStep)
    ensures
        s == launch_next(e),
{
    match e {
        LaunchEvent::Bound => LaunchStep::Serve,
        LaunchEvent::Reclaimed => LaunchStep::Serve,
        LaunchEvent::BindFailed(b) => if is_taken(b) {
            LaunchStep::Forward
        } else {
            LaunchStep::RunAlone
        },
        LaunchEvent::Forwarded => LaunchStep::Exit,
        LaunchEvent::ForwardFailed => LaunchStep::Reclaim,
        LaunchEvent::ReclaimFailed => LaunchStep::RunAlone,
    }
}

/// A launch ends without a window only where the owner took the file: no failure loses an open.
pub proof fn law_no_open_is_lost(e: LaunchEvent)
    ensures
        launch_next(e) == LaunchStep::Exit <==> e == LaunchEvent::Forwarded,
{
}

/// What a launch hands to the owner of the socket.
#[derive(Debug, Clone, Copy, PartialEq, Eq, Structural)]
pub enum ForwardPlan {
    /// Nothing to send, but the owner must prove to be alive.
    Probe,
    /// Grant the owner the foreground, then send the path.
    Send { grant_foreground: bool },
}

/// What a launch hands to the owner of the socket.
pub fn forward_plan(has_path: bool, activate: bool) -> (p: ForwardPlan)
    ensures
        p == if has_path {
            ForwardPlan::Send { grant_foreground: activate }
        } else {
            ForwardPlan::Probe
        },
        p == planned(has_path, activate),
{
    if has_path {
        ForwardPlan::Send { grant_foreground: activate }
    } else {
        ForwardPlan::Probe
    }
}

/// Where the socket's name lives.
#[derive(Debug, Clone, Copy, PartialEq, Eq, Structural)]
pub enum SocketPlace {
    /// In a namespace of the kernel, which forgets it with its owner.
    Kernel,
    RuntimeDir,
    CacheDir,
    TempDir,
}

/// Where the socket's name lives: in the kernel where names can, except on Apple systems; else in
/// the first directory that there is.
pub fn socket_place(names_supported: bool, apple: bool, runtime_dir: bool, cache_dir: bool) -> (p:
    SocketPlace)
    ensures
        p == if names_supported && !apple {
            SocketPlace::Kernel
        } else if runtime_dir {
            SocketPlace::RuntimeDir
        } else if cache_dir {
            SocketPlace::CacheDir
        } else {
            SocketPlace::TempDir
        },
        p == placed(names_supported, apple, runtime_dir, cache_dir),
{
    if names_supported && !apple {
        SocketPlace::Kernel
    } else if runtime_dir {
        SocketPlace::RuntimeDir
    } else if cache_dir {
        SocketPlace::CacheDir
    } else {
        SocketPlace::TempDir
    }
}

/// A server that may yet come up or is busy is waited for as long as allowed, one that refuses
/// at most 150 milliseconds, and any other error not at all.
pub proof fn law_patience_goes_by_the_error(e: ConnectError, timeout: u64, longer: u64)
    requires
        timeout <= longer,
    ensures
        e == ConnectError::NotFound || e == ConnectError::PipeBusy ==> patience(e, timeout)
            == timeout,
        e == ConnectError::Refused ==> patience(e, timeout) <= 150 && (timeout <= 150 ==> patience(
            e,
            timeout,
        ) == timeout) && (timeout >= 150 ==> patience(e, timeout) == 150),
        e == ConnectError::Other ==> patience(e, timeout) == 0,
        patience(e, timeout) <= patience(e, longer),
{
}

/// What each step of a launch leads to: whoever holds the name serves, a taken name is forwarded
/// to, a failed forward tries to take the name over, and only where the name cannot be had at
/// all does the program run alone.
pub proof fn law_launch_steps(e: LaunchEvent)
    ensures
        launch_next(e) == LaunchStep::Serve <==> e == LaunchEvent::Bound || e
            == LaunchEvent::Reclaimed,
        launch_next(e) == LaunchStep::Forward <==> e == LaunchEvent::BindFailed(
            BindError::AddrInUse,
        ) || e == LaunchEvent::BindFailed(BindError::PermissionDenied),
        launch_next(e) == LaunchStep::Reclaim <==> e == LaunchEvent::ForwardFailed,
        launch_next(e) == LaunchStep::RunAlone <==> e == LaunchEvent::ReclaimFailed || e
            == LaunchEvent::BindFailed(BindError::Other),
{
}

/// What follows a failed connection.
pub open spec fn retried(e: ConnectError, elapsed: u64, timeout: u64) -> Retry {
    if patience(e, timeout) <= elapsed {
        Retry::GiveUp
    } else {
        Retry::After(25)
    }
}

/// Once given up, longer waiting changes nothing; a try that comes soon enough is followed by
/// another, a little later, unless the error is one that will not pass.
pub proof fn law_giving_up_is_for_good(e: ConnectError, elapsed: u64, later: u64, timeout: u64)
    requires
        elapsed <= later,
    ensures
        retried(e, elapsed, timeout) == Retry::GiveUp ==> retried(e, later, timeout)
            == Retry::GiveUp,
        elapsed >= timeout ==> retried(e, elapsed, timeout) == Retry::GiveUp,
        e == ConnectError::Other ==> retried(e, elapsed, timeout) == Retry::GiveUp,
        (e == ConnectError::NotFound || e == ConnectError::PipeBusy) && elapsed < timeout
            ==> retried(e, elapsed, timeout) is After,
        e == ConnectError::Refused && elapsed >= 150 ==> retried(e, elapsed, timeout)
            == Retry::GiveUp,
        e == ConnectError::Refused && elapsed < timeout && elapsed < 150 ==> retried(
            e,
            elapsed,
            timeout,
        ) is After,
        retried(e, elapsed, timeout) matches Retry::After(ms) ==> ms > 0,
{
}

/// What is forwarded to a running instance.
pub open spec fn planned(has_path: bool, activate: bool) -> ForwardPlan {
    if !has_path {
        ForwardPlan::Probe
    } else {
        ForwardPlan::Send { grant_foreground: activate }
    }
}

/// Something is sent exactly where there is a path, and the foreground is granted only with it
/// and only where asked.
pub proof fn law_only_a_path_is_sent(has_path: bool, activate: bool)
    ensures
        planned(has_path, activate) is Send <==> has_path,
        planned(has_path, activate) matches ForwardPlan::Send { grant_foreground } ==> (
        grant_foreground <==> activate),
{
}

/// Where the socket lies.
pub open spec fn placed(names_supported: bool, apple: bool, runtime_dir: bool, cache_dir: bool) -> SocketPlace {
    if apple || !names_supported {
        if runtime_dir {
            SocketPlace::RuntimeDir
        } else if cache_dir {
            SocketPlace::CacheDir
        } else {
            SocketPlace::TempDir
        }
    } else {
        SocketPlace::Kernel
    }
}

/// The kernel's own names are used where there are any and the system is not Apple's; among
/// directories the temporary one is the last resort and the runtime one the first choice.
pub proof fn law_socket_places(names: bool, apple: bool, runtime_dir: bool, cache_dir: bool)
    ensures
        placed(names, apple, runtime_dir, cache_dir) == SocketPlace::Kernel <==> names && !apple,
        placed(names, apple, runtime_dir, cache_dir) == SocketPlace::TempDir ==> !runtime_dir
            && !cache_dir,
        !(names && !apple) && runtime_dir ==> placed(names, apple, runtime_dir, cache_dir)
            == SocketPlace::RuntimeDir,
        placed(names, apple, runtime_dir, cache_dir) == SocketPlace::CacheDir <==> !(names
            && !apple) && !runtime_dir && cache_dir,
{
}

} // verus!
