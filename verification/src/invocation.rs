//! Building a concrete analyzer invocation from a task configuration: the
//! fixed set of placeholder bindings the configuration registers, and the
//! expansion of the analyzer executable, arguments and environment overlay
//! into the transient invocation run once per loop iteration.

use vstd::prelude::*;

use crate::config::{Config, EnvVar};
use crate::expand::{
    binding_map,
    entries_view,
    expand_spec,
    expand_all,
    lemma_binding_map_concat,
    lemma_expand_single,
    Binding,
    ExpandError,
    Expander,
};

verus! {

/// The parts of a list joined by single spaces.
pub open spec fn join_spaces(parts: Seq<Seq<char>>) -> Seq<char>
    decreases parts.len(),
{
    if parts.len() == 0 {
        Seq::empty()
    } else if parts.len() == 1 {
        parts[0]
    } else {
        join_spaces(parts.drop_last()) + seq![' '] + parts.last()
    }
}

/// Joins strings with single spaces, as the list-valued placeholders
/// (`{target_options}`, `{analyzer_options}`) are bound.
pub fn join_with_spaces(parts: &Vec<String>) -> (out: String)
    ensures
        out@ == join_spaces(parts.deep_view()),
{
    let ghost pv = parts.deep_view();
    let mut out = String::new();
    let n = parts.len();
    for i in 0..n
        invariant
            n == parts@.len(),
            pv == parts.deep_view(),
            out@ == join_spaces(pv.subrange(0, i as int)),
    {
        if i > 0 {
            out.append(" ");
        }
        out.append(parts[i].as_str());
        proof {
            reveal_strlit(" ");
            assert(" "@ =~= seq![' ']);
            assert(pv.subrange(0, i + 1).drop_last() =~= pv.subrange(0, i as int));
            assert(pv.subrange(0, i + 1).last() == pv[i as int]);
            if i == 0 {
                assert(out@ =~= pv[0]);
            }
        }
    }
    proof {
        assert(pv.subrange(0, n as int) =~= pv);
    }
    out
}

/// The view of an optional string.
pub open spec fn opt_view(o: Option<String>) -> Option<Seq<char>> {
    match o {
        Option::Some(s) => Option::Some(s@),
        Option::None => Option::None,
    }
}

/// The binding list of an optional placeholder: one entry when the value is
/// present, none when it is absent.
pub open spec fn opt_entry(name: Seq<char>, v: Option<Seq<char>>) -> Seq<(Seq<char>, Seq<char>)> {
    match v {
        Option::Some(s) => seq![(name, s)],
        Option::None => Seq::empty(),
    }
}

/// The local path of the tools directory, when one is configured.
pub open spec fn tools_dir_of(c: Config) -> Option<Seq<char>> {
    match c.tools {
        Option::Some(d) => Option::Some(d.local_path@),
        Option::None => Option::None,
    }
}

/// The storage account of the crashes directory's remote location, when known.
pub open spec fn crashes_account_of(c: Config) -> Option<Seq<char>> {
    match c.crashes.remote_path {
        Option::Some(r) => opt_view(r.account),
        Option::None => Option::None,
    }
}

/// The storage container of the crashes directory's remote location, when known.
pub open spec fn crashes_container_of(c: Config) -> Option<Seq<char>> {
    match c.crashes.remote_path {
        Option::Some(r) => opt_view(r.container),
        Option::None => Option::None,
    }
}

/// The five always-present bindings drawn from the analysis targets.
pub open spec fn fixed_bindings_front(c: Config) -> Seq<(Seq<char>, Seq<char>)> {
    seq![
        ("input_path"@, c.input@),
        ("target_exe"@, c.target_exe@),
        ("target_options"@, join_spaces(c.target_options.deep_view())),
        ("analyzer_exe"@, c.analyzer_exe@),
        ("analyzer_options"@, join_spaces(c.analyzer_options.deep_view())),
    ]
}

/// The three always-present bindings drawn from the shared task identity.
pub open spec fn fixed_bindings_identity(c: Config) -> Seq<(Seq<char>, Seq<char>)> {
    seq![
        ("setup_dir"@, c.common.setup_dir@),
        ("job_id"@, c.common.job_id@),
        ("task_id"@, c.common.task_id@),
    ]
}

/// Every binding a task configuration registers, in registration order.
/// Optional bindings are registered only when the configuration value is
/// present; referencing them when absent is an expansion error.
pub open spec fn config_bindings(c: Config) -> Seq<(Seq<char>, Seq<char>)> {
    fixed_bindings_front(c) + opt_entry("tools_dir"@, tools_dir_of(c)) + fixed_bindings_identity(c)
        + opt_entry("microsoft_telemetry_key"@, opt_view(c.common.microsoft_telemetry_key))
        + opt_entry("instance_telemetry_key"@, opt_view(c.common.instance_telemetry_key))
        + opt_entry("crashes_account"@, crashes_account_of(c)) + opt_entry(
        "crashes_container"@,
        crashes_container_of(c),
    )
}

/// The placeholder table a task configuration registers.
pub open spec fn config_map(c: Config) -> Map<Seq<char>, Seq<char>> {
    binding_map(config_bindings(c))
}

/// Builds the expander whose table is exactly the configuration's bindings.
/// The registrations are fixed for the task's lifetime; only expanded values
/// change, and with a fixed configuration they do not change either.
pub fn build_expander(c: &Config) -> (e: Expander)
    ensures
        e@ == config_map(*c),
{
    let mut bindings: Vec<Binding> = Vec::new();
    bindings.push(Binding { name: String::from_str("input_path"), value: c.input.clone() });
    bindings.push(Binding { name: String::from_str("target_exe"), value: c.target_exe.clone() });
    bindings.push(
        Binding { name: String::from_str("target_options"), value: join_with_spaces(&c.target_options) },
    );
    bindings.push(
        Binding { name: String::from_str("analyzer_exe"), value: c.analyzer_exe.clone() },
    );
    bindings.push(
        Binding {
            name: String::from_str("analyzer_options"),
            value: join_with_spaces(&c.analyzer_options),
        },
    );
    proof {
        assert(entries_view(bindings@) =~= fixed_bindings_front(*c));
    }
    let ghost done = fixed_bindings_front(*c);
    if let Option::Some(d) = &c.tools {
        bindings.push(Binding { name: String::from_str("tools_dir"), value: d.local_path.clone() });
    }
    proof {
        assert(entries_view(bindings@) =~= done + opt_entry("tools_dir"@, tools_dir_of(*c)));
    }
    let ghost done = done + opt_entry("tools_dir"@, tools_dir_of(*c));
    bindings.push(
        Binding { name: String::from_str("setup_dir"), value: c.common.setup_dir.clone() },
    );
    bindings.push(Binding { name: String::from_str("job_id"), value: c.common.job_id.clone() });
    bindings.push(Binding { name: String::from_str("task_id"), value: c.common.task_id.clone() });
    proof {
        assert(entries_view(bindings@) =~= done + fixed_bindings_identity(*c));
    }
    let ghost done = done + fixed_bindings_identity(*c);
    if let Option::Some(k) = &c.common.microsoft_telemetry_key {
        bindings.push(Binding { name: String::from_str("microsoft_telemetry_key"), value: k.clone() });
    }
    proof {
        assert(entries_view(bindings@) =~= done + opt_entry(
            "microsoft_telemetry_key"@,
            opt_view(c.common.microsoft_telemetry_key),
        ));
    }
    let ghost done = done + opt_entry(
        "microsoft_telemetry_key"@,
        opt_view(c.common.microsoft_telemetry_key),
    );
    if let Option::Some(k) = &c.common.instance_telemetry_key {
        bindings.push(Binding { name: String::from_str("instance_telemetry_key"), value: k.clone() });
    }
    proof {
        assert(entries_view(bindings@) =~= done + opt_entry(
            "instance_telemetry_key"@,
            opt_view(c.common.instance_telemetry_key),
        ));
    }
    let ghost done = done + opt_entry(
        "instance_telemetry_key"@,
        opt_view(c.common.instance_telemetry_key),
    );
    if let Option::Some(r) = &c.crashes.remote_path {
        if let Option::Some(a) = &r.account {
            bindings.push(Binding { name: String::from_str("crashes_account"), value: a.clone() });
        }
    }
    proof {
        assert(entries_view(bindings@) =~= done + opt_entry(
            "crashes_account"@,
            crashes_account_of(*c),
        ));
    }
    let ghost done = done + opt_entry("crashes_account"@, crashes_account_of(*c));
    if let Option::Some(r) = &c.crashes.remote_path {
        if let Option::Some(b) = &r.container {
            bindings.push(Binding { name: String::from_str("crashes_container"), value: b.clone() });
        }
    }
    proof {
        assert(entries_view(bindings@) =~= done + opt_entry(
            "crashes_container"@,
            crashes_container_of(*c),
        ));
        assert(done + opt_entry("crashes_container"@, crashes_container_of(*c)) =~= config_bindings(
            *c,
        ));
    }
    Expander { bindings }
}

/// The views of an environment overlay, in order.
pub open spec fn env_pairs(vars: Seq<EnvVar>) -> Seq<(Seq<char>, Seq<char>)> {
    vars.map_values(|e: EnvVar| (e.name@, e.value@))
}

/// What expanding an environment overlay yields: names kept, each value
/// template resolved, order preserved; the first missing placeholder fails
/// the whole overlay.
pub open spec fn expand_env(
    pairs: Seq<(Seq<char>, Seq<char>)>,
    m: Map<Seq<char>, Seq<char>>,
) -> Result<Seq<(Seq<char>, Seq<char>)>, Seq<char>>
    decreases pairs.len(),
{
    if pairs.len() == 0 {
        Result::Ok(Seq::empty())
    } else {
        match expand_env(pairs.drop_last(), m) {
            Result::Ok(rs) => match expand_spec(pairs.last().1, m) {
                Result::Ok(v) => Result::Ok(rs.push((pairs.last().0, v))),
                Result::Err(p) => Result::Err(p),
            },
            Result::Err(p) => Result::Err(p),
        }
    }
}

/// Once one value template of an overlay fails, the whole overlay fails with
/// that template's missing placeholder, provided everything before succeeded.
proof fn lemma_expand_env_err(pairs: Seq<(Seq<char>, Seq<char>)>, m: Map<Seq<char>, Seq<char>>, k: int)
    requires
        0 <= k < pairs.len(),
        expand_env(pairs.subrange(0, k), m) is Ok,
        expand_spec(pairs[k].1, m) is Err,
    ensures
        expand_env(pairs, m) == Result::<Seq<(Seq<char>, Seq<char>)>, Seq<char>>::Err(
            expand_spec(pairs[k].1, m)->Err_0,
        ),
    decreases pairs.len(),
{
    if pairs.len() == k + 1 {
        assert(pairs.drop_last() =~= pairs.subrange(0, k));
        assert(pairs.last() == pairs[k]);
    } else {
        assert(pairs.drop_last().subrange(0, k) =~= pairs.subrange(0, k));
        assert(pairs.drop_last()[k] == pairs[k]);
        lemma_expand_env_err(pairs.drop_last(), m, k);
    }
}

/// Expands each value of an environment overlay, keeping names and order.
fn expand_environment(ex: &Expander, vars: &Vec<EnvVar>) -> (r: Result<Vec<EnvVar>, ExpandError>)
    ensures
        match (r, expand_env(env_pairs(vars@), ex@)) {
            (Result::Ok(out), Result::Ok(s)) => env_pairs(out@) == s,
            (Result::Err(e), Result::Err(p)) => e.placeholder@ == p,
            _ => false,
        },
{
    let ghost pairs = env_pairs(vars@);
    let mut out: Vec<EnvVar> = Vec::new();
    proof {
        assert(pairs.subrange(0, 0) =~= Seq::<(Seq<char>, Seq<char>)>::empty());
        assert(env_pairs(out@) =~= Seq::<(Seq<char>, Seq<char>)>::empty());
    }
    let n = vars.len();
    for i in 0..n
        invariant
            n == vars@.len(),
            pairs == env_pairs(vars@),
            out@.len() == i,
            expand_env(pairs.subrange(0, i as int), ex@) == Result::<
                Seq<(Seq<char>, Seq<char>)>,
                Seq<char>,
            >::Ok(env_pairs(out@)),
    {
        match ex.evaluate_value(vars[i].value.as_str()) {
            Ok(v) => {
                out.push(EnvVar { name: vars[i].name.clone(), value: v });
                proof {
                    assert(pairs.subrange(0, i + 1).drop_last() =~= pairs.subrange(0, i as int));
                    assert(pairs.subrange(0, i + 1).last() == pairs[i as int]);
                    assert(env_pairs(out@) =~= expand_env(pairs.subrange(0, i + 1), ex@)->Ok_0);
                }
            },
            Err(e) => {
                proof {
                    lemma_expand_env_err(pairs, ex@, i as int);
                }
                return Err(e);
            },
        }
    }
    proof {
        assert(pairs.subrange(0, n as int) =~= pairs);
    }
    Ok(out)
}

/// The mathematical reading of a concrete invocation.
#[verifier::ext_equal]
pub struct InvocationModel {
    pub program: Seq<char>,
    pub arguments: Seq<Seq<char>>,
    pub environment: Seq<(Seq<char>, Seq<char>)>,
    pub cleared: Seq<Seq<char>>,
}

/// One concrete analyzer invocation: resolved executable path, resolved
/// argument list, resolved environment overlay, and the ambient variables to
/// clear so orchestrator-internal log configuration does not leak into the
/// child. The stdio policy is fixed: no input, output and error captured.
/// An invocation is created, used and discarded once per loop iteration.
#[derive(Debug, Clone)]
pub struct Invocation {
    pub program: String,
    pub arguments: Vec<String>,
    pub environment: Vec<EnvVar>,
    pub cleared_env: Vec<String>,
}

impl View for Invocation {
    type V = InvocationModel;

    open spec fn view(&self) -> InvocationModel {
        InvocationModel {
            program: self.program@,
            arguments: self.arguments.deep_view(),
            environment: env_pairs(self.environment@),
            cleared: self.cleared_env.deep_view(),
        }
    }
}

/// What the invocation of a configuration is: analyzer executable, each
/// analyzer argument and each environment value expanded against the
/// configuration's placeholder table, in that order, with the logging
/// variable cleared; or the first missing placeholder.
pub open spec fn invocation_spec(c: Config) -> Result<InvocationModel, Seq<char>> {
    let m = config_map(c);
    match expand_spec(c.analyzer_exe@, m) {
        Result::Err(p) => Result::Err(p),
        Result::Ok(prog) => match expand_all(c.analyzer_options.deep_view(), m) {
            Result::Err(p) => Result::Err(p),
            Result::Ok(args) => match expand_env(env_pairs(c.analyzer_env@), m) {
                Result::Err(p) => Result::Err(p),
                Result::Ok(env) => Result::Ok(
                    InvocationModel {
                        program: prog,
                        arguments: args,
                        environment: env,
                        cleared: seq!["RUST_LOG"@],
                    },
                ),
            },
        },
    }
}

/// Builds the concrete invocation for one iteration. The result is a pure
/// function of the configuration alone, so every iteration of the loop runs
/// the same invocation, whatever earlier iterations did or returned.
pub fn prepare_invocation(c: &Config) -> (r: Result<Invocation, ExpandError>)
    ensures
        match (r, invocation_spec(*c)) {
            (Result::Ok(inv), Result::Ok(model)) => inv@ == model,
            (Result::Err(e), Result::Err(p)) => e.placeholder@ == p,
            _ => false,
        },
{
    let expander = build_expander(c);
    let program = match expander.evaluate_value(c.analyzer_exe.as_str()) {
        Ok(p) => p,
        Err(e) => {
            return Err(e);
        },
    };
    let arguments = match expander.evaluate(&c.analyzer_options) {
        Ok(a) => a,
        Err(e) => {
            return Err(e);
        },
    };
    let environment = match expand_environment(&expander, &c.analyzer_env) {
        Ok(v) => v,
        Err(e) => {
            return Err(e);
        },
    };
    let mut cleared_env: Vec<String> = Vec::new();
    cleared_env.push(String::from_str("RUST_LOG"));
    let inv = Invocation { program, arguments, environment, cleared_env };
    proof {
        assert(inv@.cleared =~= seq!["RUST_LOG"@]);
        assert(inv@ =~= invocation_spec(*c)->Ok_0);
    }
    Ok(inv)
}

/// None of the other registered placeholder names is `tools_dir`.
proof fn lemma_tools_key_distinct()
    ensures
        "tools_dir"@ != "input_path"@,
        "tools_dir"@ != "target_exe"@,
        "tools_dir"@ != "target_options"@,
        "tools_dir"@ != "analyzer_exe"@,
        "tools_dir"@ != "analyzer_options"@,
        "tools_dir"@ != "setup_dir"@,
        "tools_dir"@ != "job_id"@,
        "tools_dir"@ != "task_id"@,
        "tools_dir"@ != "microsoft_telemetry_key"@,
        "tools_dir"@ != "instance_telemetry_key"@,
        "tools_dir"@ != "crashes_account"@,
        "tools_dir"@ != "crashes_container"@,
{
    reveal_strlit("tools_dir");
    reveal_strlit("input_path");
    reveal_strlit("target_exe");
    reveal_strlit("target_options");
    reveal_strlit("analyzer_exe");
    reveal_strlit("analyzer_options");
    reveal_strlit("setup_dir");
    reveal_strlit("job_id");
    reveal_strlit("task_id");
    reveal_strlit("microsoft_telemetry_key");
    reveal_strlit("instance_telemetry_key");
    reveal_strlit("crashes_account");
    reveal_strlit("crashes_container");
    assert("tools_dir"@.len() == 9);
    assert("input_path"@.len() == 10);
    assert("target_exe"@.len() == 10);
    assert("target_options"@.len() == 14);
    assert("analyzer_exe"@.len() == 12);
    assert("analyzer_options"@.len() == 16);
    assert("setup_dir"@.len() == 9);
    assert("job_id"@.len() == 6);
    assert("task_id"@.len() == 7);
    assert("microsoft_telemetry_key"@.len() == 23);
    assert("instance_telemetry_key"@.len() == 22);
    assert("crashes_account"@.len() == 15);
    assert("crashes_container"@.len() == 17);
    assert("tools_dir"@[0] == 't' && "setup_dir"@[0] == 's');
}

/// A single optional binding's table: it binds its own name exactly when the
/// value is present, and binds no other name.
proof fn lemma_opt_entry_map(name: Seq<char>, v: Option<Seq<char>>, other: Seq<char>)
    requires
        other != name,
    ensures
        v matches Option::Some(s) ==> binding_map(opt_entry(name, v)).dom().contains(name)
            && binding_map(opt_entry(name, v))[name] == s,
        v is None ==> !binding_map(opt_entry(name, v)).dom().contains(name),
        !binding_map(opt_entry(name, v)).dom().contains(other),
{
    match v {
        Option::Some(s) => {
            assert(seq![(name, s)].drop_last() =~= Seq::<(Seq<char>, Seq<char>)>::empty());
            assert(binding_map(Seq::<(Seq<char>, Seq<char>)>::empty()) == Map::<
                Seq<char>,
                Seq<char>,
            >::empty());
            assert(binding_map(opt_entry(name, v)) == Map::<Seq<char>, Seq<char>>::empty().insert(
                name,
                s,
            ));
        },
        Option::None => {
            assert(binding_map(opt_entry(name, v)) == Map::<Seq<char>, Seq<char>>::empty());
        },
    }
}

/// How the configuration's table resolves the `tools_dir` placeholder: to the
/// tools directory's local path when one is configured, and not at all when
/// none is.
pub proof fn lemma_tools_dir_resolution(c: Config)
    ensures
        c.tools matches Option::Some(d) ==> config_map(c).dom().contains("tools_dir"@)
            && config_map(c)["tools_dir"@] == d.local_path@,
        c.tools is None ==> !config_map(c).dom().contains("tools_dir"@),
{
    lemma_tools_key_distinct();
    let name = "tools_dir"@;
    let front = fixed_bindings_front(c);
    let tools = opt_entry(name, tools_dir_of(c));
    let ident = fixed_bindings_identity(c);
    let o1 = opt_entry("microsoft_telemetry_key"@, opt_view(c.common.microsoft_telemetry_key));
    let o2 = opt_entry("instance_telemetry_key"@, opt_view(c.common.instance_telemetry_key));
    let o3 = opt_entry("crashes_account"@, crashes_account_of(c));
    let o4 = opt_entry("crashes_container"@, crashes_container_of(c));
    lemma_binding_map_concat(front + tools + ident + o1 + o2 + o3, o4);
    lemma_binding_map_concat(front + tools + ident + o1 + o2, o3);
    lemma_binding_map_concat(front + tools + ident + o1, o2);
    lemma_binding_map_concat(front + tools + ident, o1);
    lemma_binding_map_concat(front + tools, ident);
    lemma_binding_map_concat(front, tools);
    assert(forall|j: int| 0 <= j < front.len() ==> front[j].0 != name);
    crate::expand::lemma_binding_map_absent(front, name);
    assert(forall|j: int| 0 <= j < ident.len() ==> ident[j].0 != name);
    crate::expand::lemma_binding_map_absent(ident, name);
    lemma_opt_entry_map("microsoft_telemetry_key"@, opt_view(c.common.microsoft_telemetry_key), name);
    lemma_opt_entry_map("instance_telemetry_key"@, opt_view(c.common.instance_telemetry_key), name);
    lemma_opt_entry_map("crashes_account"@, crashes_account_of(c), name);
    lemma_opt_entry_map("crashes_container"@, crashes_container_of(c), name);
    lemma_opt_entry_map(name, tools_dir_of(c), "setup_dir"@);
}

/// Expansion determinism: expansion depends on nothing but the template and
/// the configuration, so any two results that `evaluate_value`'s contract
/// admits for the same template and the same configuration are equal —
/// repeated expansion yields identical output, and so does rebuilding the
/// expander from the same configuration first.
pub proof fn lemma_expansion_deterministic(
    c: Config,
    t: Seq<char>,
    r1: Result<Seq<char>, Seq<char>>,
    r2: Result<Seq<char>, Seq<char>>,
)
    requires
        r1 == expand_spec(t, config_map(c)),
        r2 == expand_spec(t, config_map(c)),
    ensures
        r1 == r2,
{
}

/// Expansion totality for the tools placeholder: with no tools directory
/// configured, expanding a template that references `{tools_dir}` fails,
/// naming that placeholder; with one configured, it yields the directory's
/// local path.
pub proof fn lemma_tools_placeholder(c: Config)
    ensures
        c.tools matches Option::Some(d) ==> expand_spec("{tools_dir}"@, config_map(c)) == Result::<
            Seq<char>,
            Seq<char>,
        >::Ok(d.local_path@),
        c.tools is None ==> expand_spec("{tools_dir}"@, config_map(c)) == Result::<
            Seq<char>,
            Seq<char>,
        >::Err("tools_dir"@),
{
    reveal_strlit("{tools_dir}");
    reveal_strlit("tools_dir");
    assert("tools_dir"@ =~= seq!['t', 'o', 'o', 'l', 's', '_', 'd', 'i', 'r']);
    assert("{tools_dir}"@ =~= seq!['{'] + "tools_dir"@ + seq!['}']);
    assert(forall|k: int| 0 <= k < "tools_dir"@.len() ==> "tools_dir"@[k] != '}');
    lemma_expand_single("tools_dir"@, config_map(c));
    lemma_tools_dir_resolution(c);
}

} // verus!
