use vstd::prelude::*;

use crate::assoc::{assoc_lookup, assoc_wf, assoc_set};
use crate::fragment::PathFragment;
use crate::resolve::{spec_resolve_fragments, RmakeSupportContext};
use crate::shell::{Resolution, ResolveError, ShellOutput, ShellTape};

verus! {

/// A kind of intermediate compiler artifact a build can request.
#[derive(Debug, PartialEq, Eq, Structural, Copy, Clone, Hash)]
pub enum EmitKind {
    /// Type and metadata artifacts, without full code generation.
    Metadata,
}

/// The build mode requested from a compiler invocation.
#[derive(Debug, PartialEq, Eq, Structural, Copy, Clone)]
pub enum CrateType {
    Lib,
    Bin,
}

/// The flag value naming a crate type on the compiler command line.
pub open spec fn crate_type_str(c: CrateType) -> Seq<char> {
    match c {
        CrateType::Lib => "lib"@,
        CrateType::Bin => "bin"@,
    }
}

impl CrateType {
    pub fn as_str(&self) -> (r: &'static str)
        ensures
            r@ == crate_type_str(*self),
    {
        match self {
            CrateType::Lib => "lib",
            CrateType::Bin => "bin",
        }
    }
}

/// The flag value naming an emit kind on the compiler command line.
pub open spec fn emit_kind_str(e: EmitKind) -> Seq<char> {
    match e {
        EmitKind::Metadata => "metadata"@,
    }
}

/// The `--emit` flag pairs for the requested kinds, in order.
pub open spec fn spec_emit_args(emits: Seq<EmitKind>) -> Seq<Seq<char>>
    decreases emits.len(),
{
    if emits.len() == 0 {
        Seq::<Seq<char>>::empty()
    } else {
        seq!["--emit"@, emit_kind_str(emits[0])] + spec_emit_args(
            emits.subrange(1, emits.len() as int),
        )
    }
}

/// The `--crate-type` flag pair, when a crate type was chosen.
pub open spec fn spec_crate_type_args(crate_type: Option<CrateType>) -> Seq<Seq<char>> {
    match crate_type {
        None => Seq::<Seq<char>>::empty(),
        Some(c) => seq!["--crate-type"@, crate_type_str(c)],
    }
}

/// The `--extern` flag pairs, or the failure that stopped resolving one of
/// the dependency paths.
pub enum ExternArgsOutcome {
    Flags(Seq<Seq<char>>),
    Stopped(Resolution),
}

/// Resolve each dependency path in order and lay out its flag pair; the
/// count is how many recorded shell outcomes were consumed.
pub open spec fn spec_extern_args(
    env: Seq<(String, crate::environment::EnvironmentVariable)>,
    externs: Seq<(String, Vec<PathFragment>)>,
    tape: Seq<ShellOutput>,
) -> (ExternArgsOutcome, nat)
    decreases externs.len(),
{
    if externs.len() == 0 {
        (ExternArgsOutcome::Flags(Seq::<Seq<char>>::empty()), 0)
    } else {
        let (head, used) = spec_resolve_fragments(env, externs[0].1@, tape, Set::empty());
        match head {
            Resolution::Done(path) => {
                let (rest, rest_used) = spec_extern_args(
                    env,
                    externs.subrange(1, externs.len() as int),
                    tape.skip(used as int),
                );
                match rest {
                    ExternArgsOutcome::Flags(flags) => (
                        ExternArgsOutcome::Flags(
                            seq!["--extern"@, externs[0].0@ + "="@ + path] + flags,
                        ),
                        (used + rest_used) as nat,
                    ),
                    _ => (rest, (used + rest_used) as nat),
                }
            },
            _ => (ExternArgsOutcome::Stopped(head), used),
        }
    }
}

/// How a `compile` call ends: an invocation to launch, a missing required
/// field, or a resolution that stopped.
pub enum CompileOutcome {
    Invoke(Seq<char>, Seq<Seq<char>>),
    MissingCurrentDir,
    MissingPath,
    Stopped(Resolution),
}

/// Why `compile` produced no invocation.
#[derive(Debug)]
pub enum CompileError {
    /// `current_dir` was never set to a non-empty fragment sequence.
    MissingCurrentDir,
    /// `path` was never set to a non-empty fragment sequence.
    MissingPath,
    /// Resolving one of the configured fragment sequences stopped.
    Resolve(ResolveError),
}

impl View for CompileError {
    type V = CompileOutcome;

    open spec fn view(&self) -> CompileOutcome {
        match self {
            CompileError::MissingCurrentDir => CompileOutcome::MissingCurrentDir,
            CompileError::MissingPath => CompileOutcome::MissingPath,
            CompileError::Resolve(e) => CompileOutcome::Stopped(e@),
        }
    }
}

/// A fully resolved compiler invocation, ready to launch: the directory to
/// run `rustc` in and the arguments to pass it.
#[derive(Debug)]
pub struct RustcInvocation {
    pub current_dir: String,
    pub args: Vec<String>,
}

/// The views of a sequence of strings.
pub open spec fn string_views(s: Seq<String>) -> Seq<Seq<char>> {
    s.map_values(|x: String| x@)
}

/// What `compile` does with the builder's configuration: check the required
/// fields, resolve the working directory, the dependency paths and the input
/// path in that order, and lay out the full argument list.
pub open spec fn spec_compile(
    b: RustcBuilder,
    env: Seq<(String, crate::environment::EnvironmentVariable)>,
    tape: Seq<ShellOutput>,
) -> (CompileOutcome, nat) {
    if b.current_dir@.len() == 0 {
        (CompileOutcome::MissingCurrentDir, 0)
    } else if b.path@.len() == 0 {
        (CompileOutcome::MissingPath, 0)
    } else {
        let (dir_res, dir_used) = spec_resolve_fragments(env, b.current_dir@, tape, Set::empty());
        match dir_res {
            Resolution::Done(dir) => {
                let (ext, ext_used) = spec_extern_args(env, b.externs@, tape.skip(dir_used as int));
                match ext {
                    ExternArgsOutcome::Flags(flags) => {
                        let (path_res, path_used) = spec_resolve_fragments(
                            env,
                            b.path@,
                            tape.skip((dir_used + ext_used) as int),
                            Set::empty(),
                        );
                        match path_res {
                            Resolution::Done(p) => (
                                CompileOutcome::Invoke(
                                    dir,
                                    seq!["+nightly"@] + spec_emit_args(b.emits@)
                                        + spec_crate_type_args(b.crate_type) + flags + seq![p],
                                ),
                                (dir_used + ext_used + path_used) as nat,
                            ),
                            _ => (
                                CompileOutcome::Stopped(path_res),
                                (dir_used + ext_used + path_used) as nat,
                            ),
                        }
                    },
                    ExternArgsOutcome::Stopped(res) => (
                        CompileOutcome::Stopped(res),
                        (dir_used + ext_used) as nat,
                    ),
                }
            },
            _ => (CompileOutcome::Stopped(dir_res), dir_used),
        }
    }
}

/// The executable result of `compile` matches the mathematical outcome, and
/// the tape advanced by exactly the consumed count.
pub open spec fn compile_matches(
    r: Result<RustcInvocation, CompileError>,
    outcome: (CompileOutcome, nat),
    pre: ShellTape,
    post: ShellTape,
) -> bool {
    &&& post.full() == pre.full()
    &&& post.pos() == pre.pos() + outcome.1
    &&& match r {
        Ok(inv) => outcome.0 == CompileOutcome::Invoke(inv.current_dir@, string_views(inv.args@)),
        Err(e) => outcome.0 == e@,
    }
}

/// A one-shot configuration for a compiler invocation: configured through
/// chained setters, consumed by [`RustcBuilder::compile`].
#[derive(Debug)]
pub struct RustcBuilder {
    /// Where the launched compiler runs; required, non-empty.
    pub current_dir: Vec<PathFragment>,
    /// The primary input path, the final positional argument; required,
    /// non-empty.
    pub path: Vec<PathFragment>,
    /// The artifact kinds to request, without duplicates.
    pub emits: Vec<EmitKind>,
    /// The build mode, when one was chosen.
    pub crate_type: Option<CrateType>,
    /// Named dependency artifacts, each name bound once.
    pub externs: Vec<(String, Vec<PathFragment>)>,
}

/// Append the `--emit` flag pairs for `emits[start..]` to `args`.
fn push_emit_args(args: &mut Vec<String>, emits: &Vec<EmitKind>, start: usize)
    requires
        start <= emits.len(),
    ensures
        string_views(final(args)@) == string_views(old(args)@) + spec_emit_args(
            emits@.skip(start as int),
        ),
    decreases emits.len() - start,
{
    let ghost goal = emits@.skip(start as int);
    if start == emits.len() {
        proof {
            assert(goal =~= Seq::<EmitKind>::empty());
            assert(string_views(args@) =~= string_views(args@) + spec_emit_args(goal));
        }
    } else {
        let ghost pre = args@;
        args.push("--emit".to_owned());
        let e = emits[start];
        match e {
            EmitKind::Metadata => args.push("metadata".to_owned()),
        }
        proof {
            assert(goal[0] == emits@[start as int]);
            assert(string_views(args@) =~= string_views(pre) + seq![
                "--emit"@,
                emit_kind_str(goal[0]),
            ]);
        }
        push_emit_args(args, emits, start + 1);
        proof {
            assert(goal.subrange(1, goal.len() as int) =~= emits@.skip(start as int + 1));
            assert(string_views(args@) =~= string_views(pre) + spec_emit_args(goal));
        }
    }
}

/// Resolve each dependency path of `externs[start..]` in order and append
/// its `--extern name=path` flag pair to `args`.  On a resolution failure
/// the error is handed back and the invocation under construction is
/// abandoned by the caller.
fn push_extern_args(
    scx: &RmakeSupportContext,
    externs: &Vec<(String, Vec<PathFragment>)>,
    start: usize,
    args: &mut Vec<String>,
    tape: &mut ShellTape,
) -> (r: Option<ResolveError>)
    requires
        old(tape).wf(),
        start <= externs.len(),
    ensures
        final(tape).wf(),
        final(tape).full() == old(tape).full(),
        ({
            let (out, used) = spec_extern_args(
                scx.env(),
                externs@.skip(start as int),
                old(tape).remaining(),
            );
            &&& final(tape).pos() == old(tape).pos() + used
            &&& match r {
                None => out matches ExternArgsOutcome::Flags(flags) && string_views(final(args)@)
                    == string_views(old(args)@) + flags,
                Some(e) => out == ExternArgsOutcome::Stopped(e@),
            }
        }),
    decreases externs.len() - start,
{
    let ghost goal = externs@.skip(start as int);
    if start == externs.len() {
        proof {
            assert(goal =~= Seq::<(String, Vec<PathFragment>)>::empty());
            assert(string_views(args@) =~= string_views(args@) + Seq::<Seq<char>>::empty());
        }
        None
    } else {
        proof {
            assert(goal[0] == externs@[start as int]);
        }
        match scx.resolve_env_var_fragments(&externs[start].1, tape) {
            Err(e) => Some(e),
            Ok(path_text) => {
                let ghost head_out = spec_resolve_fragments(
                    scx.env(),
                    externs@[start as int].1@,
                    old(tape).remaining(),
                    Set::empty(),
                );
                let ghost pre = args@;
                args.push("--extern".to_owned());
                let mut pair = externs[start].0.clone();
                pair.append("=");
                pair.append(path_text.as_str());
                args.push(pair);
                proof {
                    assert(tape.remaining() =~= old(tape).remaining().skip(head_out.1 as int));
                    assert(string_views(args@) =~= string_views(pre) + seq![
                        "--extern"@,
                        externs@[start as int].0@ + "="@ + path_text@,
                    ]);
                }
                let rest = push_extern_args(scx, externs, start + 1, args, tape);
                proof {
                    assert(goal.subrange(1, goal.len() as int) =~= externs@.skip(
                        start as int + 1,
                    ));
                    let (out, used) = spec_extern_args(
                        scx.env(),
                        goal,
                        old(tape).remaining(),
                    );
                    if rest is None {
                        let (rest_out, rest_used) = spec_extern_args(
                            scx.env(),
                            externs@.skip(start as int + 1),
                            old(tape).remaining().skip(head_out.1 as int),
                        );
                        match rest_out {
                            ExternArgsOutcome::Flags(flags) => {
                                assert(string_views(args@) =~= string_views(pre) + (seq![
                                    "--extern"@,
                                    externs@[start as int].0@ + "="@ + path_text@,
                                ] + flags));
                            },
                            _ => {},
                        }
                    }
                }
                rest
            },
        }
    }
}

fn emits_contain(emits: &Vec<EmitKind>, e: EmitKind) -> (r: bool)
    ensures
        r == emits@.contains(e),
{
    let mut i: usize = 0;
    while i < emits.len()
        invariant
            i <= emits.len(),
            forall|j: int| 0 <= j < i ==> emits@[j] != e,
        decreases emits.len() - i,
    {
        if emits[i] == e {
            return true;
        }
        i = i + 1;
    }
    false
}

impl RustcBuilder {
    pub fn new() -> (r: Self)
        ensures
            r.current_dir@ == Seq::<PathFragment>::empty(),
            r.path@ == Seq::<PathFragment>::empty(),
            r.emits@ == Seq::<EmitKind>::empty(),
            r.crate_type is None,
            r.externs@ == Seq::<(String, Vec<PathFragment>)>::empty(),
    {
        RustcBuilder {
            current_dir: Vec::new(),
            path: Vec::new(),
            emits: Vec::new(),
            crate_type: None,
            externs: Vec::new(),
        }
    }

    /// Set the directory the compiler will run in.
    pub fn current_dir(self, path: Vec<PathFragment>) -> (r: Self)
        ensures
            r.current_dir == path,
            r.path == self.path,
            r.emits == self.emits,
            r.crate_type == self.crate_type,
            r.externs == self.externs,
    {
        RustcBuilder {
            current_dir: path,
            path: self.path,
            emits: self.emits,
            crate_type: self.crate_type,
            externs: self.externs,
        }
    }

    /// Set the primary input path.
    pub fn path(self, path: Vec<PathFragment>) -> (r: Self)
        ensures
            r.current_dir == self.current_dir,
            r.path == path,
            r.emits == self.emits,
            r.crate_type == self.crate_type,
            r.externs == self.externs,
    {
        RustcBuilder {
            current_dir: self.current_dir,
            path,
            emits: self.emits,
            crate_type: self.crate_type,
            externs: self.externs,
        }
    }

    /// Request one more artifact kind; requesting a kind twice has no
    /// further effect.
    pub fn emit(self, emit_kind: EmitKind) -> (r: Self)
        ensures
            r.current_dir == self.current_dir,
            r.path == self.path,
            r.crate_type == self.crate_type,
            r.externs == self.externs,
            self.emits@.contains(emit_kind) ==> r.emits == self.emits,
            !self.emits@.contains(emit_kind) ==> r.emits@ == self.emits@.push(emit_kind),
    {
        let mut emits = self.emits;
        if !emits_contain(&emits, emit_kind) {
            emits.push(emit_kind);
        }
        RustcBuilder {
            current_dir: self.current_dir,
            path: self.path,
            emits,
            crate_type: self.crate_type,
            externs: self.externs,
        }
    }

    /// Choose the build mode; a second choice replaces the first.
    pub fn crate_type(self, crate_type: CrateType) -> (r: Self)
        ensures
            r.current_dir == self.current_dir,
            r.path == self.path,
            r.emits == self.emits,
            r.crate_type == Some(crate_type),
            r.externs == self.externs,
    {
        RustcBuilder {
            current_dir: self.current_dir,
            path: self.path,
            emits: self.emits,
            crate_type: Some(crate_type),
            externs: self.externs,
        }
    }

    /// Resolve the configured fragments and assemble the compiler
    /// invocation, consuming the builder.  The required fields are checked
    /// first: no fragment is resolved, and no shell outcome consumed, unless
    /// both are set.
    pub fn compile(self, scx: &RmakeSupportContext, tape: &mut ShellTape) -> (r: Result<
        RustcInvocation,
        CompileError,
    >)
        requires
            old(tape).wf(),
        ensures
            final(tape).wf(),
            compile_matches(
                r,
                spec_compile(self, scx.env(), old(tape).remaining()),
                *old(tape),
                *final(tape),
            ),
    {
        if self.current_dir.is_empty() {
            return Err(CompileError::MissingCurrentDir);
        }
        if self.path.is_empty() {
            return Err(CompileError::MissingPath);
        }
        let current_dir = match scx.resolve_env_var_fragments(&self.current_dir, tape) {
            Ok(text) => text,
            Err(e) => {
                return Err(CompileError::Resolve(e));
            },
        };
        let ghost dir_out = spec_resolve_fragments(
            scx.env(),
            self.current_dir@,
            old(tape).remaining(),
            Set::empty(),
        );
        let mut args: Vec<String> = Vec::new();
        args.push("+nightly".to_owned());
        proof {
            assert(string_views(args@) =~= seq!["+nightly"@]);
        }
        push_emit_args(&mut args, &self.emits, 0);
        proof {
            assert(self.emits@.skip(0) =~= self.emits@);
        }
        let ghost base1 = string_views(args@);
        match self.crate_type {
            None => {},
            Some(ct) => {
                args.push("--crate-type".to_owned());
                args.push(ct.as_str().to_owned());
            },
        }
        proof {
            assert(string_views(args@) =~= base1 + spec_crate_type_args(self.crate_type));
        }
        let ghost base2 = string_views(args@);
        let ghost tape_after_dir = *tape;
        match push_extern_args(scx, &self.externs, 0, &mut args, tape) {
            Some(e) => {
                proof {
                    assert(self.externs@.skip(0) =~= self.externs@);
                    assert(tape_after_dir.remaining() =~= old(tape).remaining().skip(
                        dir_out.1 as int,
                    ));
                }
                return Err(CompileError::Resolve(e));
            },
            None => {},
        }
        let ghost ext_out = spec_extern_args(
            scx.env(),
            self.externs@,
            old(tape).remaining().skip(dir_out.1 as int),
        );
        proof {
            assert(self.externs@.skip(0) =~= self.externs@);
            assert(tape_after_dir.remaining() =~= old(tape).remaining().skip(dir_out.1 as int));
        }
        let ghost base3 = string_views(args@);
        let ghost tape_after_ext = *tape;
        let path_text = match scx.resolve_env_var_fragments(&self.path, tape) {
            Ok(text) => text,
            Err(e) => {
                proof {
                    assert(tape_after_ext.remaining() =~= old(tape).remaining().skip(
                        (dir_out.1 + ext_out.1) as int,
                    ));
                }
                return Err(CompileError::Resolve(e));
            },
        };
        proof {
            assert(tape_after_ext.remaining() =~= old(tape).remaining().skip(
                (dir_out.1 + ext_out.1) as int,
            ));
        }
        args.push(path_text);
        proof {
            assert(string_views(args@) =~= base3 + seq![path_text@]);
            assert(string_views(args@) =~= seq!["+nightly"@] + spec_emit_args(self.emits@)
                + spec_crate_type_args(self.crate_type) + (match ext_out.0 {
                ExternArgsOutcome::Flags(flags) => flags,
                _ => Seq::<Seq<char>>::empty(),
            }) + seq![path_text@]);
        }
        Ok(RustcInvocation { current_dir, args })
    }

    /// Supply a named dependency artifact, replacing any earlier path bound
    /// to the same name.
    pub fn extern_dep(self, name: String, path: Vec<PathFragment>) -> (r: Self)
        requires
            assoc_wf(self.externs@),
        ensures
            r.current_dir == self.current_dir,
            r.path == self.path,
            r.emits == self.emits,
            r.crate_type == self.crate_type,
            assoc_wf(r.externs@),
            assoc_lookup(r.externs@, name@) == Some(path),
            forall|n: Seq<char>| n != name@ ==> assoc_lookup(r.externs@, n) == assoc_lookup(
                self.externs@,
                n,
            ),
            (exists|i: int|
                0 <= i < self.externs@.len() && self.externs@[i].0@ == name@ && r.externs@
                    == self.externs@.update(i, (name, path))) || r.externs@ == self.externs@.push(
                (name, path),
            ),
    {
        let mut externs = self.externs;
        assoc_set(&mut externs, name, path);
        RustcBuilder {
            current_dir: self.current_dir,
            path: self.path,
            emits: self.emits,
            crate_type: self.crate_type,
            externs,
        }
    }
}

} // verus!
