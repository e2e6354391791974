use vstd::prelude::*;
use vstd::std_specs::iter::IteratorSpec;
use vstd::string::StringExecFns;

use crate::error::FusoError;

verus! {

broadcast use vstd::string::axiom_spec_iter;

/// Whether a text holds a NUL character, which a C string cannot carry.
pub open spec fn has_nul(s: Seq<char>) -> bool {
    s.contains('\0')
}

/// The texts of some strings, in order.
pub open spec fn texts(v: Seq<String>) -> Seq<Seq<char>> {
    v.map_values(|s: String| s@)
}

/// The argument list of a spawned program: the program, then its arguments.
pub open spec fn argv_of(prog: Seq<char>, args: Seq<Seq<char>>) -> Seq<Seq<char>> {
    seq![prog] + args
}

/// The texts of the arguments, if any, in order.
pub open spec fn arg_texts(args: Option<Vec<String>>) -> Seq<Seq<char>> {
    match args {
        Some(a) => texts(a@),
        None => Seq::empty(),
    }
}

/// The environment entry `k=v`.
pub open spec fn env_entry(k: Seq<char>, v: Seq<char>) -> Seq<char> {
    k + seq!['='] + v
}

/// What a pseudo-terminal is spawned with.
pub struct PtySpawn {
    /// The program, then its arguments.
    pub argv: Vec<String>,
    /// The environment, as `k=v` entries.
    pub envp: Vec<String>,
    /// The working directory, if one is given.
    pub work: Option<String>,
}

/// Whether `s` holds no NUL character.
fn no_nul(s: &String) -> (r: bool)
    ensures
        r == !has_nul(s@),
{
    let mut it = s.as_str().chars();
    let ghost all = s@;
    let ghost mut k: int = 0;
    assert(it.remaining() == all);
    loop
        invariant
            0 <= k <= all.len(),
            all == s@,
            it.remaining() == all.skip(k),
            forall|j: int| 0 <= j < k ==> all[j] != '\0',
        decreases all.len() - k,
    {
        match it.next() {
            None => {
                proof {
                    assert(k == all.len());
                    assert forall|j: int| 0 <= j < all.len() implies all[j] != '\0' by {}
                }
                return true;
            },
            Some(c) => {
                if c == '\0' {
                    proof {
                        assert(all[k] == '\0');
                    }
                    return false;
                }
                proof {
                    assert(all.skip(k).drop_first() =~= all.skip(k + 1));
                    k = k + 1;
                }
            },
        }
    }
}

/// `std::io::Error::from(std::io::ErrorKind::InvalidInput)`: the error of a text
/// that holds a NUL character. Nothing is stated of the error value.
#[verifier::external_body]
fn invalid_input() -> std::io::Error {
    std::io::Error::from(std::io::ErrorKind::InvalidInput)
}

/// The argument list of a spawned program: the program, then its arguments, in
/// order. Fails with an I/O error exactly when one of them holds a NUL character.
#[verifier::loop_isolation(false)]
pub fn pty_argv(prog: String, args: Option<Vec<String>>) -> (r: Result<Vec<String>, FusoError>)
    ensures
        ({
            let all = argv_of(prog@, arg_texts(args));
            &&& r is Ok <==> forall|i: int| 0 <= i < all.len() ==> !has_nul(#[trigger] all[i])
            &&& r matches Ok(v) ==> texts(v@) == all
            &&& r matches Err(e) ==> e is StdIo
        }),
{
    let ghost rest: Seq<Seq<char>> = arg_texts(args);
    let ghost all = argv_of(prog@, rest);
    if !no_nul(&prog) {
        assert(all[0] == prog@);
        return Err(FusoError::StdIo(invalid_input()));
    }
    let mut argv: Vec<String> = Vec::new();
    argv.push(prog);
    match args {
        None => {
            assert(texts(argv@) =~= all);
            Ok(argv)
        },
        Some(args) => {
            let mut i: usize = 0;
            while i < args.len()
                invariant
                    0 <= i <= args@.len(),
                    rest == texts(args@),
                    all == argv_of(prog@, rest),
                    !has_nul(prog@),
                    texts(argv@) == all.take(i + 1),
                    forall|j: int| 0 <= j < i + 1 ==> !has_nul(#[trigger] all[j]),
                decreases args@.len() - i,
            {
                assert(texts(args@)[i as int] == args@[i as int]@);
                assert(all[i as int + 1] == rest[i as int]);
                if !no_nul(&args[i]) {
                    assert(has_nul(all[i as int + 1]));
                    return Err(FusoError::StdIo(invalid_input()));
                }
                let a = args[i].clone();
                let ghost argv0 = argv@;
                argv.push(a);
                assert(texts(argv@) =~= texts(argv0).push(a@));
                i = i + 1;
                assert(texts(argv@) =~= all.take(i + 1));
            }
            assert(all.take(i + 1) =~= all);
            Ok(argv)
        },
    }
}

/// The environment of a spawned program: one `k=v` entry per pair, in order.
/// A pair whose entry holds a NUL character is not served (the spawner gives up).
pub fn pty_envp(env: Vec<(String, String)>) -> (r: Vec<String>)
    requires
        forall|i: int| 0 <= i < env@.len() ==> !has_nul(#[trigger] env_entry(env@[i].0@, env@[i].1@)),
    ensures
        texts(r@) == env@.map_values(|e: (String, String)| env_entry(e.0@, e.1@)),
{
    let ghost want = env@.map_values(|e: (String, String)| env_entry(e.0@, e.1@));
    let mut r: Vec<String> = Vec::new();
    let mut i: usize = 0;
    let eq = "=";
    proof {
        reveal_strlit("=");
    }
    while i < env.len()
        invariant
            0 <= i <= env@.len(),
            want == env@.map_values(|e: (String, String)| env_entry(e.0@, e.1@)),
            eq@ == seq!['='],
            texts(r@) == want.take(i as int),
        decreases env@.len() - i,
    {
        let mut entry = env[i].0.clone();
        entry.append(eq);
        entry.append(env[i].1.as_str());
        assert(entry@ =~= env_entry(env@[i as int].0@, env@[i as int].1@));
        assert(want[i as int] == env_entry(env@[i as int].0@, env@[i as int].1@));
        let ghost r0 = r@;
        r.push(entry);
        assert(texts(r@) =~= texts(r0).push(entry@));
        i = i + 1;
        assert(texts(r@) =~= want.take(i as int));
    }
    assert(want.take(i as int) =~= want);
    r
}

/// What a pseudo-terminal is spawned with: the working directory, the argument
/// list (see `pty_argv`) and the environment (see `pty_envp`). Fails with an I/O
/// error exactly when the working directory or an argument holds a NUL character.
pub fn pty_plan(prog: String, work: Option<String>, args: Option<Vec<String>>, env: Vec<(String, String)>) -> (r: Result<PtySpawn, FusoError>)
    requires
        forall|i: int| 0 <= i < env@.len() ==> !has_nul(#[trigger] env_entry(env@[i].0@, env@[i].1@)),
    ensures
        ({
            let all = argv_of(prog@, arg_texts(args));
            let work_ok = match work { Some(w) => !has_nul(w@), None => true };
            &&& r is Ok <==> work_ok && forall|i: int| 0 <= i < all.len() ==> !has_nul(#[trigger] all[i])
            &&& r matches Ok(p) ==> texts(p.argv@) == all
                && texts(p.envp@) == env@.map_values(|e: (String, String)| env_entry(e.0@, e.1@))
                && p.work == work
            &&& r matches Err(e) ==> e is StdIo
        }),
{
    if let Some(w) = &work {
        if !no_nul(w) {
            return Err(FusoError::StdIo(invalid_input()));
        }
    }
    let argv = match pty_argv(prog, args) {
        Ok(argv) => argv,
        Err(e) => {
            return Err(e);
        },
    };
    let envp = pty_envp(env);
    Ok(PtySpawn { argv, envp, work })
}

} // verus!
