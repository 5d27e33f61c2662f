//! Single-instance process guard.
//!
//! On startup an exclusive, non-blocking lock is tried on a known file under
//! the user's data directory. Holding it keeps a second invocation from
//! opening a duplicate window. The system releases the lock when the process
//! exits, so a crash leaves nothing to clean up.

use crate::paths::data_dir;
use crate::paths::Environment;
use crate::paths::PathsError;
use vstd::prelude::*;
use vstd::string::StringSliceAdditionalSpecFns;

verus! {

/// Name of the lock file.
pub const LOCK_FILE: &'static str = "openlogi.lock";

/// Held for the duration of the run around the locked file `F`.
pub struct InstanceGuard<F> {
    pub handle: F,
}

/// Why the lock was not acquired. The text of an error of the system goes with
/// those that have one.
#[derive(Debug)]
pub enum InstanceError {
    /// The lock path could not be resolved.
    Path(PathsError),
    /// The lock file or its directory could not be made or opened.
    Open { path: Vec<u8>, source: String },
    /// Another instance already holds the lock.
    AlreadyRunning { path: Vec<u8> },
    /// The lock attempt itself failed.
    LockFailed { path: Vec<u8>, source: String },
}

/// What a lock attempt came to.
#[derive(Debug)]
pub enum TryLock {
    Locked,
    /// Another process holds the lock.
    WouldBlock,
    /// The attempt failed; the string is the system's description.
    Error(String),
}

/// The path of the lock file, if it can be resolved.
pub open spec fn lock_path(env: Environment) -> Option<Seq<u8>> {
    match env.data_directory() {
        Some(dir) => Some(env.style.joined(dir, LOCK_FILE.spec_bytes())),
        None => None,
    }
}

/// Whether making the directory of the lock file may come to `made`.
pub open spec fn directory_may_be<D: Fn(&Vec<u8>) -> Result<(), String>>(
    env: Environment,
    create_dir: D,
    made: Result<(), String>,
) -> bool {
    exists|dir: Vec<u8>|
        env.data_directory() == Some(dir@) && #[trigger] call_ensures(create_dir, (&dir,), made)
}

/// Whether opening the lock file may give `file`.
pub open spec fn may_open<F, O: Fn(&Vec<u8>) -> Result<F, String>>(
    env: Environment,
    open: O,
    file: F,
) -> bool {
    exists|path: Vec<u8>|
        lock_path(env) == Some(path@) && #[trigger] call_ensures(open, (&path,), Ok(file))
}

/// Whether opening the file at `path` and trying to lock it may come to
/// `outcome`.
pub open spec fn may_come_to<F, O: Fn(&Vec<u8>) -> Result<F, String>, L: Fn(&F) -> TryLock>(
    open: O,
    try_lock: L,
    path: Vec<u8>,
    outcome: TryLock,
) -> bool {
    exists|file: F|
        call_ensures(open, (&path,), Ok(file)) && #[trigger] call_ensures(
            try_lock,
            (&file,),
            outcome,
        )
}

/// Acquire the single-instance lock: `create_dir` makes the directory of the
/// lock file, `open` opens the file, and `try_lock` tries to lock it. Each is
/// called only once the one before it succeeded.
///
/// `AlreadyRunning` is the polite "another copy is open" signal. The other
/// errors indicate filesystem trouble.
pub fn acquire<
    F,
    D: Fn(&Vec<u8>) -> Result<(), String>,
    O: Fn(&Vec<u8>) -> Result<F, String>,
    L: Fn(&F) -> TryLock,
>(env: &Environment, create_dir: &D, open: &O, try_lock: &L) -> (r: Result<
    InstanceGuard<F>,
    InstanceError,
>)
    requires
        forall|p: Vec<u8>|
            env.data_directory() == Some(p@) ==> #[trigger] call_requires(*create_dir, (&p,)),
        forall|p: Vec<u8>|
            lock_path(*env) == Some(p@) && directory_may_be(*env, *create_dir, Ok(()))
                ==> #[trigger] call_requires(*open, (&p,)),
        forall|f: F| may_open(*env, *open, f) ==> #[trigger] call_requires(*try_lock, (&f,)),
    ensures
        r matches Err(InstanceError::Path(e)) ==> e == PathsError::HomeNotFound,
        r matches Err(InstanceError::Path(_)) <==> lock_path(*env) is None,
        r matches Err(InstanceError::Open { path, source }) ==> lock_path(*env) == Some(path@) && (
        directory_may_be(*env, *create_dir, Err(source)) || (directory_may_be(
            *env,
            *create_dir,
            Ok(()),
        ) && call_ensures(*open, (&path,), Err(source)))),
        r matches Err(InstanceError::AlreadyRunning { path }) ==> lock_path(*env) == Some(path@)
            && directory_may_be(*env, *create_dir, Ok(())) && may_come_to(
            *open,
            *try_lock,
            path,
            TryLock::WouldBlock,
        ),
        r matches Err(InstanceError::LockFailed { path, source }) ==> lock_path(*env) == Some(path@)
            && directory_may_be(*env, *create_dir, Ok(())) && may_come_to(
            *open,
            *try_lock,
            path,
            TryLock::Error(source),
        ),
        r matches Ok(guard) ==> directory_may_be(*env, *create_dir, Ok(())) && call_ensures(
            *try_lock,
            (&guard.handle,),
            TryLock::Locked,
        ) && may_open(*env, *open, guard.handle),
{
    let dir: Vec<u8> = match data_dir(env) {
        Ok(dir) => dir,
        Err(e) => return Err(InstanceError::Path(e)),
    };
    let path: Vec<u8> = env.style.join(dir.as_slice(), LOCK_FILE);
    assert(lock_path(*env) == Some(path@));
    let made: Result<(), String> = create_dir(&dir);
    assert(directory_may_be(*env, *create_dir, made));
    match made {
        Ok(done) => {
            assert(done == ());
        },
        Err(source) => return Err(InstanceError::Open { path, source }),
    }
    assert(directory_may_be(*env, *create_dir, Ok(())));
    let file: F = match open(&path) {
        Ok(file) => file,
        Err(source) => return Err(InstanceError::Open { path, source }),
    };
    assert(call_ensures(*open, (&path,), Ok(file)));
    assert(may_open(*env, *open, file));
    match try_lock(&file) {
        TryLock::Locked => Ok(InstanceGuard { handle: file }),
        TryLock::WouldBlock => Err(InstanceError::AlreadyRunning { path }),
        TryLock::Error(source) => {
            assert(may_come_to(*open, *try_lock, path, TryLock::Error(source)));
            Err(InstanceError::LockFailed { path, source })
        },
    }
}

/// What startup does about the lock.
#[derive(Clone, Copy, Debug, PartialEq, Eq, Structural)]
pub enum Startup {
    /// Go on.
    Proceed,
    /// Exit without an error, so that no launcher shows a crash dialog.
    ExitQuietly,
    /// Exit with the error.
    Fail,
}

/// Decide what startup does about the outcome of [`acquire`].
pub fn startup<F>(outcome: &Result<InstanceGuard<F>, InstanceError>) -> (s: Startup)
    ensures
        s == match *outcome {
            Ok(_) => Startup::Proceed,
            Err(InstanceError::AlreadyRunning { .. }) => Startup::ExitQuietly,
            Err(_) => Startup::Fail,
        },
{
    match outcome {
        Ok(_) => Startup::Proceed,
        Err(InstanceError::AlreadyRunning { .. }) => Startup::ExitQuietly,
        Err(_) => Startup::Fail,
    }
}

/// The lock file is `openlogi.lock` right below the data directory, and there is
/// none where that cannot be resolved.
pub proof fn law_the_lock_file_is_below_the_data_directory(env: Environment)
    ensures
        env.data_directory() is None ==> lock_path(env) is None,
        env.data_directory() matches Some(dir) ==> lock_path(env) == Some(
            env.style.joined(dir, "openlogi.lock".spec_bytes()),
        ),
{
}

/// What the steps may come to is what making that directory, opening that file
/// and locking what was opened gave.
pub proof fn law_the_steps_concern_the_lock_file<
    F,
    D: Fn(&Vec<u8>) -> Result<(), String>,
    O: Fn(&Vec<u8>) -> Result<F, String>,
    L: Fn(&F) -> TryLock,
>(
    env: Environment,
    create_dir: D,
    open: O,
    try_lock: L,
    made: Result<(), String>,
    file: F,
    path: Vec<u8>,
    outcome: TryLock,
)
    ensures
        directory_may_be(env, create_dir, made) ==> exists|dir: Vec<u8>|
            env.data_directory() == Some(dir@) && #[trigger] call_ensures(
                create_dir,
                (&dir,),
                made,
            ),
        may_open(env, open, file) ==> exists|p: Vec<u8>|
            lock_path(env) == Some(p@) && #[trigger] call_ensures(open, (&p,), Ok(file)),
        may_come_to(open, try_lock, path, outcome) ==> exists|f: F|
            call_ensures(open, (&path,), Ok(f)) && #[trigger] call_ensures(
                try_lock,
                (&f,),
                outcome,
            ),
{
}

/// What acquiring comes to follows the steps: without a data directory the path
/// fails; a lock held elsewhere is told apart from a lock that failed; and a
/// guard holds the very file that was opened below the data directory and locked.
pub proof fn law_acquiring_follows_the_steps<
    F,
    D: Fn(&Vec<u8>) -> Result<(), String>,
    O: Fn(&Vec<u8>) -> Result<F, String>,
    L: Fn(&F) -> TryLock,
>(
    env: Environment,
    create_dir: D,
    open: O,
    try_lock: L,
    r: Result<InstanceGuard<F>, InstanceError>,
    data: Result<Vec<u8>, PathsError>,
)
    requires
        call_ensures(acquire::<F, D, O, L>, (&env, &create_dir, &open, &try_lock), r),
        call_ensures(data_dir, (&env,), data),
    ensures
        data is Err <==> (r matches Err(InstanceError::Path(_))),
        r matches Ok(guard) ==> call_ensures(try_lock, (&guard.handle,), TryLock::Locked),
        r matches Ok(guard) ==> exists|path: Vec<u8>|
            path@ == env.style.joined(data->Ok_0@, "openlogi.lock".spec_bytes())
                && #[trigger] call_ensures(open, (&path,), Ok(guard.handle)),
        r matches Err(InstanceError::AlreadyRunning { path }) ==> path@ == env.style.joined(
            data->Ok_0@,
            "openlogi.lock".spec_bytes(),
        ) && exists|file: F|
            call_ensures(open, (&path,), Ok(file)) && #[trigger] call_ensures(
                try_lock,
                (&file,),
                TryLock::WouldBlock,
            ),
        r matches Err(InstanceError::LockFailed { path, source }) ==> path@ == env.style.joined(
            data->Ok_0@,
            "openlogi.lock".spec_bytes(),
        ) && exists|file: F|
            call_ensures(open, (&path,), Ok(file)) && #[trigger] call_ensures(
                try_lock,
                (&file,),
                TryLock::Error(source),
            ),
        r matches Err(InstanceError::Open { path, source }) ==> path@ == env.style.joined(
            data->Ok_0@,
            "openlogi.lock".spec_bytes(),
        ),
{
    law_the_lock_file_is_below_the_data_directory(env);
}

/// Startup goes on with the lock, exits without an error exactly where another
/// instance holds it, and fails otherwise.
pub proof fn law_a_second_instance_exits_quietly<F>(
    outcome: Result<InstanceGuard<F>, InstanceError>,
    s: Startup,
)
    requires
        call_ensures(startup::<F>, (&outcome,), s),
    ensures
        s is Proceed <==> outcome is Ok,
        s is ExitQuietly <==> (outcome matches Err(e) && e is AlreadyRunning),
        s is Fail <==> (outcome matches Err(e) && !(e is AlreadyRunning)),
{
}

} // verus!
