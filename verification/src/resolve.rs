use vstd::prelude::*;

use crate::assoc::{
    assoc_lookup, assoc_names, lemma_assoc_names_contains, lemma_assoc_names_finite,
    lemma_assoc_lookup_some_iff,
};
use crate::environment::{Environment, EnvironmentVariable};
use crate::fragment::{
    fragment_height, fragment_seq_height, lemma_fragment_height_pos, PathFragment,
};
use crate::shell::{shell_ok, Resolution, ResolveError, ShellOutput, ShellTape};

verus! {

/// How many names of `env` are not yet on the in-progress set `visited`;
/// the primary termination measure of resolution.
pub open spec fn unvisited_count(
    env: Seq<(String, EnvironmentVariable)>,
    visited: Set<Seq<char>>,
) -> nat {
    assoc_names(env).difference(visited).len()
}

/// Resolve a fragment sequence: the concatenation, in order, of what each
/// fragment resolves to.  The pair is the outcome and how many recorded
/// shell outcomes were consumed from the front of `tape`.
pub open spec fn spec_resolve_fragments(
    env: Seq<(String, EnvironmentVariable)>,
    frags: Seq<PathFragment>,
    tape: Seq<ShellOutput>,
    visited: Set<Seq<char>>,
) -> (Resolution, nat)
    decreases unvisited_count(env, visited), fragment_seq_height(frags), 1nat,
    via spec_resolve_fragments_decreases
{
    if frags.len() == 0 {
        (Resolution::Done(Seq::<char>::empty()), 0)
    } else {
        let (head, used) = spec_resolve_fragment(env, frags[0], tape, visited);
        match head {
            Resolution::Done(text) => {
                let (rest, rest_used) = spec_resolve_fragments(
                    env,
                    frags.subrange(1, frags.len() as int),
                    tape.skip(used as int),
                    visited,
                );
                match rest {
                    Resolution::Done(rest_text) => (
                        Resolution::Done(text + rest_text),
                        (used + rest_used) as nat,
                    ),
                    _ => (rest, (used + rest_used) as nat),
                }
            },
            _ => (head, used),
        }
    }
}

/// Resolve one fragment: literal text, a variable substitution, or a
/// shell substitution.
pub open spec fn spec_resolve_fragment(
    env: Seq<(String, EnvironmentVariable)>,
    frag: PathFragment,
    tape: Seq<ShellOutput>,
    visited: Set<Seq<char>>,
) -> (Resolution, nat)
    decreases unvisited_count(env, visited), fragment_height(frag), 0nat,
    via spec_resolve_fragment_decreases
{
    match frag {
        PathFragment::Str(text) => (Resolution::Done(text@), 0),
        PathFragment::ExpandEnvVar(inner) => {
            let (name_res, used) = spec_resolve_fragments(env, inner@, tape, visited);
            match name_res {
                Resolution::Done(name) => {
                    let (value_res, value_used) = spec_resolve_variable(
                        env,
                        name,
                        tape.skip(used as int),
                        visited,
                    );
                    (value_res, (used + value_used) as nat)
                },
                _ => (name_res, used),
            }
        },
        PathFragment::ExpandShell(inner) => {
            let (cmd_res, used) = spec_resolve_fragments(env, inner@, tape, visited);
            match cmd_res {
                Resolution::Done(cmd) => {
                    let rest = tape.skip(used as int);
                    if rest.len() == 0 {
                        (Resolution::ShellPending(cmd), used)
                    } else if shell_ok(rest[0]) {
                        (Resolution::Done(rest[0].stdout@), (used + 1) as nat)
                    } else {
                        (Resolution::ShellFailed(cmd), (used + 1) as nat)
                    }
                },
                _ => (cmd_res, used),
            }
        },
    }
}

/// Resolve a variable by name.  An unbound name resolves to the empty
/// string; a static binding to its stored text; a dynamic binding to the
/// resolution of its fragments, with `name` marked in-progress so that a
/// definition that reaches back to itself stops as cyclic.
pub open spec fn spec_resolve_variable(
    env: Seq<(String, EnvironmentVariable)>,
    name: Seq<char>,
    tape: Seq<ShellOutput>,
    visited: Set<Seq<char>>,
) -> (Resolution, nat)
    decreases unvisited_count(env, visited), 0nat, 0nat,
    via spec_resolve_variable_decreases
{
    match assoc_lookup(env, name) {
        None => (Resolution::Done(Seq::<char>::empty()), 0),
        Some(EnvironmentVariable::Static(text)) => (Resolution::Done(text@), 0),
        Some(EnvironmentVariable::Dynamic(frags)) => {
            if visited.contains(name) {
                (Resolution::CyclicVariable(name), 0)
            } else {
                spec_resolve_fragments(env, frags@, tape, visited.insert(name))
            }
        },
    }
}

#[via_fn]
proof fn spec_resolve_fragments_decreases(
    env: Seq<(String, EnvironmentVariable)>,
    frags: Seq<PathFragment>,
    tape: Seq<ShellOutput>,
    visited: Set<Seq<char>>,
) {
    if frags.len() > 0 {
        lemma_fragment_height_pos(frags[0]);
    }
}

#[via_fn]
proof fn spec_resolve_fragment_decreases(
    env: Seq<(String, EnvironmentVariable)>,
    frag: PathFragment,
    tape: Seq<ShellOutput>,
    visited: Set<Seq<char>>,
) {
}

#[via_fn]
proof fn spec_resolve_variable_decreases(
    env: Seq<(String, EnvironmentVariable)>,
    name: Seq<char>,
    tape: Seq<ShellOutput>,
    visited: Set<Seq<char>>,
) {
    lemma_assoc_names_finite(env);
    if !visited.contains(name) && assoc_lookup(env, name) is Some {
        lemma_assoc_lookup_some_iff(env, name);
        lemma_assoc_names_contains(env, name);
        assoc_names(env).lemma_set_insert_diff_decreases(visited, name);
    }
}

/// Every fragment is a literal.
pub open spec fn all_literals(frags: Seq<PathFragment>) -> bool {
    forall|i: int| 0 <= i < frags.len() ==> frags[i] is Str
}

/// The concatenation, in order, of a literal-only fragment sequence.
pub open spec fn literal_concat(frags: Seq<PathFragment>) -> Seq<char>
    decreases frags.len(),
{
    if frags.len() == 0 {
        Seq::<char>::empty()
    } else {
        frags[0]->Str_0@ + literal_concat(frags.subrange(1, frags.len() as int))
    }
}

/// Law: a literal-only fragment sequence resolves to the concatenation of
/// its literals in order, consuming no shell outcome, whatever the
/// environment, tape and in-progress set.
pub proof fn lemma_literal_resolution(
    env: Seq<(String, EnvironmentVariable)>,
    frags: Seq<PathFragment>,
    tape: Seq<ShellOutput>,
    visited: Set<Seq<char>>,
)
    requires
        all_literals(frags),
    ensures
        spec_resolve_fragments(env, frags, tape, visited) == (
            Resolution::Done(literal_concat(frags)),
            0nat,
        ),
    decreases frags.len(),
{
    if frags.len() > 0 {
        let rest = frags.subrange(1, frags.len() as int);
        assert(frags[0] is Str);
        assert forall|i: int| 0 <= i < rest.len() implies (#[trigger] rest[i]) is Str by {
            assert(rest[i] == frags[i + 1]);
        }
        assert(spec_resolve_fragment(env, frags[0], tape, visited) == (
            Resolution::Done(frags[0]->Str_0@),
            0nat,
        ));
        assert(tape.skip(0) =~= tape);
        lemma_literal_resolution(env, rest, tape, visited);
        assert(spec_resolve_fragments(env, rest, tape, visited) == (
            Resolution::Done(literal_concat(rest)),
            0nat,
        ));
    }
}

/// Law: resolving a name the environment does not bind yields the empty
/// string, consumes nothing, and never fails.
pub proof fn lemma_unset_variable_empty(
    env: Seq<(String, EnvironmentVariable)>,
    name: Seq<char>,
    tape: Seq<ShellOutput>,
    visited: Set<Seq<char>>,
)
    requires
        assoc_lookup(env, name) is None,
    ensures
        spec_resolve_variable(env, name, tape, visited) == (
            Resolution::Done(Seq::<char>::empty()),
            0nat,
        ),
{
}

/// Law: exchanging two fragments that are equal leaves resolution
/// unchanged.  (Exchanging unequal fragments usually changes the resolved
/// text, but need not: an empty literal can trade places with anything.)
pub proof fn lemma_swap_equal_fragments_preserves(
    env: Seq<(String, EnvironmentVariable)>,
    frags: Seq<PathFragment>,
    i: int,
    j: int,
    tape: Seq<ShellOutput>,
    visited: Set<Seq<char>>,
)
    requires
        0 <= i < frags.len(),
        0 <= j < frags.len(),
        frags[i] == frags[j],
    ensures
        spec_resolve_fragments(env, frags.update(i, frags[j]).update(j, frags[i]), tape, visited)
            == spec_resolve_fragments(env, frags, tape, visited),
{
    assert(frags.update(i, frags[j]).update(j, frags[i]) =~= frags);
}

/// Law: resolution never consumes more outcomes than the tape holds, and a
/// resolution that produces a value consumed only outcomes that met the
/// acceptance policy: a failed command contributes nothing to any resolved
/// string.
pub proof fn lemma_done_consumed_only_ok(
    env: Seq<(String, EnvironmentVariable)>,
    frags: Seq<PathFragment>,
    tape: Seq<ShellOutput>,
    visited: Set<Seq<char>>,
)
    ensures
        ({
            let (r, used) = spec_resolve_fragments(env, frags, tape, visited);
            used <= tape.len() && (r is Done ==> forall|k: int|
                0 <= k < used ==> shell_ok(tape[k]))
        }),
    decreases unvisited_count(env, visited), fragment_seq_height(frags), 1nat,
{
    if frags.len() > 0 {
        lemma_done_consumed_only_ok_fragment(env, frags[0], tape, visited);
        let (head, used) = spec_resolve_fragment(env, frags[0], tape, visited);
        if head is Done {
            let rest_tape = tape.skip(used as int);
            proof_fragments_decrease(env, frags, visited);
            lemma_done_consumed_only_ok(
                env,
                frags.subrange(1, frags.len() as int),
                rest_tape,
                visited,
            );
            let (rest, rest_used) = spec_resolve_fragments(
                env,
                frags.subrange(1, frags.len() as int),
                rest_tape,
                visited,
            );
            assert forall|k: int|
                used <= k < used + rest_used && rest is Done implies shell_ok(tape[k]) by {
                assert(rest_tape[k - used] == tape[k]);
            }
        }
    }
}

/// As [`lemma_done_consumed_only_ok`], for one fragment.
pub proof fn lemma_done_consumed_only_ok_fragment(
    env: Seq<(String, EnvironmentVariable)>,
    frag: PathFragment,
    tape: Seq<ShellOutput>,
    visited: Set<Seq<char>>,
)
    ensures
        ({
            let (r, used) = spec_resolve_fragment(env, frag, tape, visited);
            used <= tape.len() && (r is Done ==> forall|k: int|
                0 <= k < used ==> shell_ok(tape[k]))
        }),
    decreases unvisited_count(env, visited), fragment_height(frag), 0nat,
{
    match frag {
        PathFragment::Str(_) => {},
        PathFragment::ExpandEnvVar(inner) => {
            lemma_done_consumed_only_ok(env, inner@, tape, visited);
            let (name_res, used) = spec_resolve_fragments(env, inner@, tape, visited);
            if name_res is Done {
                let name = name_res->Done_0;
                let rest_tape = tape.skip(used as int);
                lemma_fragment_height_pos(frag);
                lemma_done_consumed_only_ok_variable(env, name, rest_tape, visited);
                let (value_res, value_used) = spec_resolve_variable(env, name, rest_tape, visited);
                assert forall|k: int|
                    used <= k < used + value_used && value_res is Done implies shell_ok(
                    tape[k],
                ) by {
                    assert(rest_tape[k - used] == tape[k]);
                }
            }
        },
        PathFragment::ExpandShell(inner) => {
            lemma_done_consumed_only_ok(env, inner@, tape, visited);
            let (cmd_res, used) = spec_resolve_fragments(env, inner@, tape, visited);
            if cmd_res is Done {
                let rest = tape.skip(used as int);
                if rest.len() > 0 {
                    assert(rest[0] == tape[used as int]);
                }
            }
        },
    }
}

/// As [`lemma_done_consumed_only_ok`], for one variable.
pub proof fn lemma_done_consumed_only_ok_variable(
    env: Seq<(String, EnvironmentVariable)>,
    name: Seq<char>,
    tape: Seq<ShellOutput>,
    visited: Set<Seq<char>>,
)
    ensures
        ({
            let (r, used) = spec_resolve_variable(env, name, tape, visited);
            used <= tape.len() && (r is Done ==> forall|k: int|
                0 <= k < used ==> shell_ok(tape[k]))
        }),
    decreases unvisited_count(env, visited), 0nat, 0nat,
{
    match assoc_lookup(env, name) {
        Some(EnvironmentVariable::Dynamic(frags)) => {
            if !visited.contains(name) {
                lemma_assoc_names_finite(env);
                lemma_assoc_lookup_some_iff(env, name);
                lemma_assoc_names_contains(env, name);
                assoc_names(env).lemma_set_insert_diff_decreases(visited, name);
                lemma_done_consumed_only_ok(env, frags@, tape, visited.insert(name));
            }
        },
        _ => {},
    }
}

proof fn proof_fragments_decrease(
    env: Seq<(String, EnvironmentVariable)>,
    frags: Seq<PathFragment>,
    visited: Set<Seq<char>>,
)
    requires
        frags.len() > 0,
    ensures
        fragment_seq_height(frags.subrange(1, frags.len() as int)) < fragment_seq_height(frags),
{
    lemma_fragment_height_pos(frags[0]);
}

/// The names currently being resolved, as a set.
pub open spec fn visited_names(v: Seq<String>) -> Set<Seq<char>> {
    v.map_values(|s: String| s@).to_set()
}

proof fn lemma_visited_names_empty()
    ensures
        visited_names(Seq::<String>::empty()) =~= Set::<Seq<char>>::empty(),
{
    let m = Seq::<String>::empty().map_values(|s: String| s@);
    assert forall|n: Seq<char>| !m.contains(n) by {
        assert(m.len() == 0);
    }
}

proof fn lemma_visited_names_push(v: Seq<String>, s: String)
    ensures
        visited_names(v.push(s)) =~= visited_names(v).insert(s@),
{
    let m0 = v.map_values(|x: String| x@);
    let m1 = v.push(s).map_values(|x: String| x@);
    assert(m1 =~= m0.push(s@));
    assert forall|n: Seq<char>|
        visited_names(v.push(s)).contains(n) <==> visited_names(v).insert(s@).contains(n) by {
        if m1.contains(n) {
            let i = choose|i: int| 0 <= i < m1.len() && m1[i] == n;
            if i < m0.len() {
                assert(m0[i] == n);
                assert(m0.contains(n));
            } else {
                assert(n == s@);
            }
        }
        if m0.contains(n) {
            let i = choose|i: int| 0 <= i < m0.len() && m0[i] == n;
            assert(m1[i] == n);
            assert(m1.contains(n));
        }
        if n == s@ {
            assert(m1[m0.len() as int] == n);
            assert(m1.contains(n));
        }
    }
}

/// The executable result `r` matches the mathematical `outcome`, and the
/// tape advanced from `pre` to `post` by exactly the consumed count.
pub open spec fn resolves_to(
    r: Result<String, ResolveError>,
    outcome: (Resolution, nat),
    pre: ShellTape,
    post: ShellTape,
) -> bool {
    &&& post.full() == pre.full()
    &&& post.pos() == pre.pos() + outcome.1
    &&& match r {
        Ok(text) => outcome.0 == Resolution::Done(text@),
        Err(e) => outcome.0 == e@,
    }
}

/// Does `name` occur on the in-progress list?
fn contains_name(visited: &Vec<String>, name: &String) -> (r: bool)
    ensures
        r == visited_names(visited@).contains(name@),
{
    let ghost m = visited@.map_values(|x: String| x@);
    let mut i: usize = 0;
    while i < visited.len()
        invariant
            i <= visited.len(),
            m == visited@.map_values(|x: String| x@),
            forall|j: int| 0 <= j < i ==> visited@[j]@ != name@,
        decreases visited.len() - i,
    {
        if visited[i] == *name {
            proof {
                assert(m[i as int] == name@);
                assert(m.contains(name@));
            }
            return true;
        }
        i = i + 1;
    }
    proof {
        if m.contains(name@) {
            let j = choose|j: int| 0 <= j < m.len() && m[j] == name@;
            assert(visited@[j]@ == name@);
        }
    }
    false
}

/// Does `f` hold exactly the literal text `text`?
pub open spec fn is_literal(f: PathFragment, text: Seq<char>) -> bool {
    match f {
        PathFragment::Str(t) => t@ == text,
        _ => false,
    }
}

/// Does `f` substitute the variable whose name is the literal `name`?
pub open spec fn is_var_of_literal(f: PathFragment, name: Seq<char>) -> bool {
    match f {
        PathFragment::ExpandEnvVar(inner) => inner@.len() == 1 && is_literal(inner@[0], name),
        _ => false,
    }
}

/// The recipe of the dynamically computed search-path variable: the temp
/// directory, the host runtime-path directory, and the value of whatever
/// variable the indirection variable names, joined by literal `:`
/// separators.
pub open spec fn host_rpath_recipe(frags: Seq<PathFragment>) -> bool {
    &&& frags.len() == 5
    &&& is_var_of_literal(frags[0], "TMPDIR"@)
    &&& is_literal(frags[1], ":"@)
    &&& is_var_of_literal(frags[2], "HOST_RPATH_DIR"@)
    &&& is_literal(frags[3], ":"@)
    &&& match frags[4] {
        PathFragment::ExpandEnvVar(outer) => outer@.len() == 1 && is_var_of_literal(
            outer@[0],
            "LD_LIB_PATH_ENVVAR"@,
        ),
        _ => false,
    }
}

/// Is `name` one of the variables the engine seeds at startup?
pub open spec fn is_seeded_name(name: Seq<char>) -> bool {
    ||| name == "LD_LIB_PATH_ENVVAR"@
    ||| name == "LD_LIB_PATH"@
    ||| name == "TMPDIR"@
    ||| name == "HOST_RPATH_DIR"@
    ||| name == "HOST_RPATH_ENV"@
}

/// The environment the engine seeds at startup: an indirection variable
/// naming the search-path variable, three static directories, and the
/// dynamically assembled search path.
pub open spec fn seeded_env(env: Seq<(String, EnvironmentVariable)>) -> bool {
    &&& match assoc_lookup(env, "LD_LIB_PATH_ENVVAR"@) {
        Some(EnvironmentVariable::Static(t)) => t@ == "LD_LIB_PATH"@,
        _ => false,
    }
    &&& match assoc_lookup(env, "LD_LIB_PATH"@) {
        Some(EnvironmentVariable::Static(t)) => t@ == "LD_LIB_PATH_PLACEHOLDER"@,
        _ => false,
    }
    &&& match assoc_lookup(env, "TMPDIR"@) {
        Some(EnvironmentVariable::Static(t)) => t@ == "TMPDIR_PLACEHOLDER"@,
        _ => false,
    }
    &&& match assoc_lookup(env, "HOST_RPATH_DIR"@) {
        Some(EnvironmentVariable::Static(t)) => t@ == "HOST_RPATH_DIR_PLACEHOLDER"@,
        _ => false,
    }
    &&& match assoc_lookup(env, "HOST_RPATH_ENV"@) {
        Some(EnvironmentVariable::Dynamic(frags)) => host_rpath_recipe(frags@),
        _ => false,
    }
    &&& forall|n: Seq<char>| !is_seeded_name(n) ==> assoc_lookup(env, n) is None
}

/// A one-fragment sequence holding the literal `name` resolves to `name`.
proof fn lemma_single_literal_fragments(
    env: Seq<(String, EnvironmentVariable)>,
    inner: Seq<PathFragment>,
    name: Seq<char>,
    tape: Seq<ShellOutput>,
    visited: Set<Seq<char>>,
)
    requires
        inner.len() == 1,
        is_literal(inner[0], name),
    ensures
        spec_resolve_fragments(env, inner, tape, visited) == (Resolution::Done(name), 0nat),
{
    assert(all_literals(inner));
    lemma_literal_resolution(env, inner, tape, visited);
    assert(inner.subrange(1, 1) =~= Seq::<PathFragment>::empty());
    assert(literal_concat(Seq::<PathFragment>::empty()) == Seq::<char>::empty());
    assert(literal_concat(inner) == inner[0]->Str_0@ + literal_concat(inner.subrange(1, 1)));
    assert(name + Seq::<char>::empty() =~= name);
}

/// A fragment substituting the variable whose name is the literal `name`
/// resolves to that variable's static value, consuming nothing.
proof fn lemma_var_fragment_resolves(
    env: Seq<(String, EnvironmentVariable)>,
    f: PathFragment,
    name: Seq<char>,
    value: Seq<char>,
    tape: Seq<ShellOutput>,
    visited: Set<Seq<char>>,
)
    requires
        is_var_of_literal(f, name),
        match assoc_lookup(env, name) {
            Some(EnvironmentVariable::Static(t)) => t@ == value,
            _ => false,
        },
    ensures
        spec_resolve_fragment(env, f, tape, visited) == (Resolution::Done(value), 0nat),
{
    let inner = f->ExpandEnvVar_0;
    lemma_single_literal_fragments(env, inner@, name, tape, visited);
    assert(tape.skip(0) =~= tape);
}

/// Law: in any environment the engine seeds, the search-path variable
/// resolves, for every tape, to the three directories joined by `:`,
/// consuming no shell outcome: the assembly runs through the indirection
/// variable without touching any external process.
pub proof fn lemma_seeded_search_path(
    env: Seq<(String, EnvironmentVariable)>,
    tape: Seq<ShellOutput>,
)
    requires
        seeded_env(env),
    ensures
        spec_resolve_variable(env, "HOST_RPATH_ENV"@, tape, Set::empty()) == (
            Resolution::Done("TMPDIR_PLACEHOLDER:HOST_RPATH_DIR_PLACEHOLDER:LD_LIB_PATH_PLACEHOLDER"@),
            0nat,
        ),
{
    reveal_strlit("TMPDIR_PLACEHOLDER");
    reveal_strlit("HOST_RPATH_DIR_PLACEHOLDER");
    reveal_strlit("LD_LIB_PATH_PLACEHOLDER");
    reveal_strlit("LD_LIB_PATH");
    reveal_strlit(":");
    reveal_strlit("TMPDIR_PLACEHOLDER:HOST_RPATH_DIR_PLACEHOLDER:LD_LIB_PATH_PLACEHOLDER");
    let frags = assoc_lookup(env, "HOST_RPATH_ENV"@)->0->Dynamic_0;
    let s = frags@;
    let vis = Set::<Seq<char>>::empty().insert("HOST_RPATH_ENV"@);
    assert(tape.skip(0) =~= tape);

    let v0 = "TMPDIR_PLACEHOLDER"@;
    let v2 = "HOST_RPATH_DIR_PLACEHOLDER"@;
    let v4 = "LD_LIB_PATH_PLACEHOLDER"@;
    let sep = ":"@;

    lemma_var_fragment_resolves(env, s[0], "TMPDIR"@, v0, tape, vis);
    assert(spec_resolve_fragment(env, s[1], tape, vis) == (Resolution::Done(sep), 0nat));
    lemma_var_fragment_resolves(env, s[2], "HOST_RPATH_DIR"@, v2, tape, vis);
    assert(spec_resolve_fragment(env, s[3], tape, vis) == (Resolution::Done(sep), 0nat));

    // The doubly nested fragment: its inner sequence resolves to the name
    // the indirection variable holds, which is then itself looked up.
    let outer = s[4]->ExpandEnvVar_0;
    assert(outer@.len() == 1 && is_var_of_literal(outer@[0], "LD_LIB_PATH_ENVVAR"@));
    lemma_var_fragment_resolves(env, outer@[0], "LD_LIB_PATH_ENVVAR"@, "LD_LIB_PATH"@, tape, vis);
    assert(outer@.subrange(1, 1) =~= Seq::<PathFragment>::empty());
    assert(spec_resolve_fragments(env, outer@.subrange(1, 1), tape, vis) == (
        Resolution::Done(Seq::<char>::empty()),
        0nat,
    ));
    assert("LD_LIB_PATH"@ + Seq::<char>::empty() =~= "LD_LIB_PATH"@);
    assert(spec_resolve_fragments(env, outer@, tape, vis) == (
        Resolution::Done("LD_LIB_PATH"@),
        0nat,
    ));
    assert(spec_resolve_fragment(env, s[4], tape, vis) == (Resolution::Done(v4), 0nat));

    // Walk the five-fragment sequence from the back.
    let s4 = s.subrange(4, 5);
    let s3 = s.subrange(3, 5);
    let s2 = s.subrange(2, 5);
    let s1 = s.subrange(1, 5);
    assert(s4[0] == s[4] && s3[0] == s[3] && s2[0] == s[2] && s1[0] == s[1]);
    assert(s4.subrange(1, 1) =~= Seq::<PathFragment>::empty());
    assert(spec_resolve_fragments(env, s4.subrange(1, 1), tape, vis) == (
        Resolution::Done(Seq::<char>::empty()),
        0nat,
    ));
    assert(v4 + Seq::<char>::empty() =~= v4);
    assert(spec_resolve_fragments(env, s4, tape, vis) == (Resolution::Done(v4), 0nat));
    assert(s3.subrange(1, 2) =~= s4);
    assert(spec_resolve_fragments(env, s3, tape, vis) == (Resolution::Done(sep + v4), 0nat));
    assert(s2.subrange(1, 3) =~= s3);
    assert(spec_resolve_fragments(env, s2, tape, vis) == (
        Resolution::Done(v2 + (sep + v4)),
        0nat,
    ));
    assert(s1.subrange(1, 4) =~= s2);
    assert(spec_resolve_fragments(env, s1, tape, vis) == (
        Resolution::Done(sep + (v2 + (sep + v4))),
        0nat,
    ));
    assert(s.subrange(1, 5) == s1);
    assert(spec_resolve_fragments(env, s, tape, vis) == (
        Resolution::Done(v0 + (sep + (v2 + (sep + v4)))),
        0nat,
    ));
    assert(v0 + (sep + (v2 + (sep + v4)))
        =~= "TMPDIR_PLACEHOLDER:HOST_RPATH_DIR_PLACEHOLDER:LD_LIB_PATH_PLACEHOLDER"@);
}

/// Owns the environment and resolves variables and fragment sequences
/// against it.
#[derive(Debug)]
pub struct RmakeSupportContext {
    /// The named variables this context resolves against.
    pub environment: Environment,
}

impl RmakeSupportContext {
    /// The environment's bindings.
    pub open spec fn env(self) -> Seq<(String, EnvironmentVariable)> {
        self.environment.entries@
    }

    pub open spec fn wf(self) -> bool {
        self.environment.wf()
    }

    /// A context over the environment the engine seeds at startup.
    pub fn init() -> (r: Self)
        ensures
            r.wf(),
            seeded_env(r.env()),
    {
        proof {
            reveal_strlit("LD_LIB_PATH_ENVVAR");
            reveal_strlit("LD_LIB_PATH");
            reveal_strlit("LD_LIB_PATH_PLACEHOLDER");
            reveal_strlit("TMPDIR");
            reveal_strlit("TMPDIR_PLACEHOLDER");
            reveal_strlit("HOST_RPATH_DIR");
            reveal_strlit("HOST_RPATH_DIR_PLACEHOLDER");
            reveal_strlit("HOST_RPATH_ENV");
            reveal_strlit(":");
        }
        let mut environment = Environment::new();
        let ghost env0 = environment;
        environment.set(
            "LD_LIB_PATH_ENVVAR".to_owned(),
            EnvironmentVariable::Static("LD_LIB_PATH".to_owned()),
        );
        let ghost env1 = environment;
        environment.set(
            "LD_LIB_PATH".to_owned(),
            EnvironmentVariable::Static("LD_LIB_PATH_PLACEHOLDER".to_owned()),
        );
        let ghost env2 = environment;
        environment.set(
            "TMPDIR".to_owned(),
            EnvironmentVariable::Static("TMPDIR_PLACEHOLDER".to_owned()),
        );
        let ghost env3 = environment;
        environment.set(
            "HOST_RPATH_DIR".to_owned(),
            EnvironmentVariable::Static("HOST_RPATH_DIR_PLACEHOLDER".to_owned()),
        );
        let ghost env4 = environment;

        let mut tmp_name: Vec<PathFragment> = Vec::new();
        tmp_name.push(PathFragment::Str("TMPDIR".to_owned()));
        let mut dir_name: Vec<PathFragment> = Vec::new();
        dir_name.push(PathFragment::Str("HOST_RPATH_DIR".to_owned()));
        let mut indirection_name: Vec<PathFragment> = Vec::new();
        indirection_name.push(PathFragment::Str("LD_LIB_PATH_ENVVAR".to_owned()));
        let mut indirection: Vec<PathFragment> = Vec::new();
        indirection.push(PathFragment::ExpandEnvVar(indirection_name));

        let mut rpath: Vec<PathFragment> = Vec::new();
        rpath.push(PathFragment::ExpandEnvVar(tmp_name));
        rpath.push(PathFragment::Str(":".to_owned()));
        rpath.push(PathFragment::ExpandEnvVar(dir_name));
        rpath.push(PathFragment::Str(":".to_owned()));
        rpath.push(PathFragment::ExpandEnvVar(indirection));
        environment.set("HOST_RPATH_ENV".to_owned(), EnvironmentVariable::Dynamic(rpath));

        proof {
            reveal_strlit("LD_LIB_PATH_ENVVAR");
            reveal_strlit("LD_LIB_PATH");
            reveal_strlit("LD_LIB_PATH_PLACEHOLDER");
            reveal_strlit("TMPDIR");
            reveal_strlit("TMPDIR_PLACEHOLDER");
            reveal_strlit("HOST_RPATH_DIR");
            reveal_strlit("HOST_RPATH_DIR_PLACEHOLDER");
            reveal_strlit("HOST_RPATH_ENV");
            reveal_strlit(":");
            assert("LD_LIB_PATH_ENVVAR"@.len() == 18);
            assert("LD_LIB_PATH"@.len() == 11);
            assert("TMPDIR"@.len() == 6);
            assert("HOST_RPATH_DIR"@.len() == 14);
            assert("HOST_RPATH_ENV"@.len() == 14);
            assert("HOST_RPATH_DIR"@[11] != "HOST_RPATH_ENV"@[11]);
            assert("LD_LIB_PATH_ENVVAR"@ != "LD_LIB_PATH"@);
            assert("LD_LIB_PATH_ENVVAR"@ != "TMPDIR"@);
            assert("LD_LIB_PATH_ENVVAR"@ != "HOST_RPATH_DIR"@);
            assert("LD_LIB_PATH_ENVVAR"@ != "HOST_RPATH_ENV"@);
            assert("LD_LIB_PATH"@ != "TMPDIR"@);
            assert("LD_LIB_PATH"@ != "HOST_RPATH_DIR"@);
            assert("LD_LIB_PATH"@ != "HOST_RPATH_ENV"@);
            assert("TMPDIR"@ != "HOST_RPATH_DIR"@);
            assert("TMPDIR"@ != "HOST_RPATH_ENV"@);
            assert("HOST_RPATH_DIR"@ != "HOST_RPATH_ENV"@);
            assert(env2.spec_lookup("LD_LIB_PATH_ENVVAR"@) == env1.spec_lookup(
                "LD_LIB_PATH_ENVVAR"@,
            ));
            assert(env3.spec_lookup("LD_LIB_PATH_ENVVAR"@) == env2.spec_lookup(
                "LD_LIB_PATH_ENVVAR"@,
            ));
            assert(env4.spec_lookup("LD_LIB_PATH_ENVVAR"@) == env3.spec_lookup(
                "LD_LIB_PATH_ENVVAR"@,
            ));
            assert(environment.spec_lookup("LD_LIB_PATH_ENVVAR"@) == env4.spec_lookup(
                "LD_LIB_PATH_ENVVAR"@,
            ));
            assert(env3.spec_lookup("LD_LIB_PATH"@) == env2.spec_lookup("LD_LIB_PATH"@));
            assert(env4.spec_lookup("LD_LIB_PATH"@) == env3.spec_lookup("LD_LIB_PATH"@));
            assert(environment.spec_lookup("LD_LIB_PATH"@) == env4.spec_lookup("LD_LIB_PATH"@));
            assert(env4.spec_lookup("TMPDIR"@) == env3.spec_lookup("TMPDIR"@));
            assert(environment.spec_lookup("TMPDIR"@) == env4.spec_lookup("TMPDIR"@));
            assert(environment.spec_lookup("HOST_RPATH_DIR"@) == env4.spec_lookup(
                "HOST_RPATH_DIR"@,
            ));
            assert forall|n: Seq<char>| !is_seeded_name(n) implies assoc_lookup(
                environment.entries@,
                n,
            ) is None by {
                assert(environment.spec_lookup(n) == env4.spec_lookup(n));
                assert(env4.spec_lookup(n) == env3.spec_lookup(n));
                assert(env3.spec_lookup(n) == env2.spec_lookup(n));
                assert(env2.spec_lookup(n) == env1.spec_lookup(n));
                assert(env1.spec_lookup(n) == env0.spec_lookup(n));
                assert(assoc_lookup(env0.entries@, n) is None);
            }
        }
        RmakeSupportContext { environment }
    }

    /// A context over a caller-supplied environment.
    pub fn from_environment(environment: Environment) -> (r: Self)
        ensures
            r.environment == environment,
    {
        RmakeSupportContext { environment }
    }

    /// Resolve an environment variable by name.  An unbound name resolves
    /// to the empty string; resolution never changes the environment, but
    /// consumes recorded shell outcomes from the tape when the variable's
    /// definition contains shell substitutions.
    pub fn resolve_env_var(&self, env_var: &str, tape: &mut ShellTape) -> (r: Result<
        String,
        ResolveError,
    >)
        requires
            old(tape).wf(),
        ensures
            final(tape).wf(),
            resolves_to(
                r,
                spec_resolve_variable(self.env(), env_var@, old(tape).remaining(), Set::empty()),
                *old(tape),
                *final(tape),
            ),
    {
        let name = env_var.to_owned();
        let visited: Vec<String> = Vec::new();
        proof {
            lemma_visited_names_empty();
            assert(visited_names(visited@) == Set::<Seq<char>>::empty());
        }
        self.resolve_variable_inner(&name, tape, &visited)
    }

    /// Resolve a fragment sequence to the concatenation of its members'
    /// resolved text.
    pub fn resolve_env_var_fragments(&self, fragments: &Vec<PathFragment>, tape: &mut ShellTape)
        -> (r: Result<String, ResolveError>)
        requires
            old(tape).wf(),
        ensures
            final(tape).wf(),
            resolves_to(
                r,
                spec_resolve_fragments(
                    self.env(),
                    fragments@,
                    old(tape).remaining(),
                    Set::empty(),
                ),
                *old(tape),
                *final(tape),
            ),
    {
        let visited: Vec<String> = Vec::new();
        proof {
            lemma_visited_names_empty();
            assert(visited_names(visited@) == Set::<Seq<char>>::empty());
            assert(fragments@.skip(0) =~= fragments@);
        }
        self.resolve_fragments_from(fragments, 0, tape, &visited)
    }

    fn resolve_variable_inner(
        &self,
        name: &String,
        tape: &mut ShellTape,
        visited: &Vec<String>,
    ) -> (r: Result<String, ResolveError>)
        requires
            old(tape).wf(),
        ensures
            final(tape).wf(),
            resolves_to(
                r,
                spec_resolve_variable(
                    self.env(),
                    name@,
                    old(tape).remaining(),
                    visited_names(visited@),
                ),
                *old(tape),
                *final(tape),
            ),
        decreases unvisited_count(self.env(), visited_names(visited@)), 0nat, 0nat,
    {
        match self.environment.lookup(name) {
            None => Ok(String::new()),
            Some(var) => match var {
                EnvironmentVariable::Static(text) => Ok(text.clone()),
                EnvironmentVariable::Dynamic(frags) => {
                    if contains_name(visited, name) {
                        Err(ResolveError::CyclicVariable(name.clone()))
                    } else {
                        let mut marked = visited.clone();
                        marked.push(name.clone());
                        proof {
                            assert(marked@ =~= visited@.push(*name));
                            lemma_visited_names_push(visited@, *name);
                            assert(visited_names(marked@) == visited_names(visited@).insert(
                                name@,
                            ));
                            lemma_assoc_names_finite(self.env());
                            lemma_assoc_lookup_some_iff(self.env(), name@);
                            lemma_assoc_names_contains(self.env(), name@);
                            assoc_names(self.env()).lemma_set_insert_diff_decreases(
                                visited_names(visited@),
                                name@,
                            );
                            assert(frags@.skip(0) =~= frags@);
                        }
                        self.resolve_fragments_from(frags, 0, tape, &marked)
                    }
                },
            },
        }
    }

    fn resolve_fragments_from(
        &self,
        frags: &Vec<PathFragment>,
        start: usize,
        tape: &mut ShellTape,
        visited: &Vec<String>,
    ) -> (r: Result<String, ResolveError>)
        requires
            old(tape).wf(),
            start <= frags.len(),
        ensures
            final(tape).wf(),
            resolves_to(
                r,
                spec_resolve_fragments(
                    self.env(),
                    frags@.skip(start as int),
                    old(tape).remaining(),
                    visited_names(visited@),
                ),
                *old(tape),
                *final(tape),
            ),
        decreases
                unvisited_count(self.env(), visited_names(visited@)),
                fragment_seq_height(frags@.skip(start as int)),
                1nat,
    {
        let ghost goal = frags@.skip(start as int);
        if start == frags.len() {
            proof {
                assert(goal =~= Seq::<PathFragment>::empty());
            }
            Ok(String::new())
        } else {
            proof {
                assert(goal[0] == frags@[start as int]);
                assert(goal.subrange(1, goal.len() as int) =~= frags@.skip(start as int + 1));
                lemma_fragment_height_pos(frags@[start as int]);
            }
            let head = self.resolve_fragment_inner(&frags[start], tape, visited);
            match head {
                Err(e) => Err(e),
                Ok(mut text) => {
                    let ghost head_out = spec_resolve_fragment(
                        self.env(),
                        goal[0],
                        old(tape).remaining(),
                        visited_names(visited@),
                    );
                    proof {
                        assert(tape.remaining() =~= old(tape).remaining().skip(
                            head_out.1 as int,
                        ));
                    }
                    let rest = self.resolve_fragments_from(frags, start + 1, tape, visited);
                    match rest {
                        Err(e) => Err(e),
                        Ok(rest_text) => {
                            text.append(rest_text.as_str());
                            Ok(text)
                        },
                    }
                },
            }
        }
    }

    fn resolve_fragment_inner(
        &self,
        frag: &PathFragment,
        tape: &mut ShellTape,
        visited: &Vec<String>,
    ) -> (r: Result<String, ResolveError>)
        requires
            old(tape).wf(),
        ensures
            final(tape).wf(),
            resolves_to(
                r,
                spec_resolve_fragment(
                    self.env(),
                    *frag,
                    old(tape).remaining(),
                    visited_names(visited@),
                ),
                *old(tape),
                *final(tape),
            ),
        decreases
                unvisited_count(self.env(), visited_names(visited@)),
                fragment_height(*frag),
                0nat,
    {
        match frag {
            PathFragment::Str(text) => Ok(text.clone()),
            PathFragment::ExpandEnvVar(inner) => {
                proof {
                    assert(inner@.skip(0) =~= inner@);
                }
                match self.resolve_fragments_from(inner, 0, tape, visited) {
                    Err(e) => Err(e),
                    Ok(name) => {
                        let ghost name_out = spec_resolve_fragments(
                            self.env(),
                            inner@,
                            old(tape).remaining(),
                            visited_names(visited@),
                        );
                        proof {
                            assert(tape.remaining() =~= old(tape).remaining().skip(
                                name_out.1 as int,
                            ));
                        }
                        self.resolve_variable_inner(&name, tape, visited)
                    },
                }
            },
            PathFragment::ExpandShell(inner) => {
                proof {
                    assert(inner@.skip(0) =~= inner@);
                }
                match self.resolve_fragments_from(inner, 0, tape, visited) {
                    Err(e) => Err(e),
                    Ok(cmd) => {
                        let ghost cmd_out = spec_resolve_fragments(
                            self.env(),
                            inner@,
                            old(tape).remaining(),
                            visited_names(visited@),
                        );
                        proof {
                            assert(tape.remaining() =~= old(tape).remaining().skip(
                                cmd_out.1 as int,
                            ));
                        }
                        match tape.take_next() {
                            None => Err(ResolveError::ShellPending(cmd)),
                            Some((ok, stdout)) => {
                                if ok {
                                    Ok(stdout)
                                } else {
                                    Err(ResolveError::ShellFailed(cmd))
                                }
                            },
                        }
                    },
                }
            },
        }
    }
}

} // verus!
