//! The two generated scripts: the wrapper shim that re-executes the hidden
//! original binary with extra arguments and environment variables, and the
//! installer that swaps the shim into the original binary's place.

use vstd::prelude::*;
use vstd::string::{StrSliceExecFns, StringExecFns};
use crate::env::{spec_bash_line, Variable};
use crate::escape::{
    escape_quote, escape_single_quoted, spec_escape_quote, spec_escape_single_quoted, spec_quoted,
};
use crate::path::Escaped;
use crate::wrapper::GeneratedPaths;

verus! {

/// The arguments and environment variables the wrapper shim injects.
#[derive(Debug)]
pub struct WrapperParams {
    /// Arguments handed to the original binary ahead of any the caller
    /// supplies at invocation time.
    pub args: Vec<String>,
    /// Environment variables exported before the original binary runs.
    pub env_vars: Vec<Variable>,
}

/// One `export` line per variable, in order.
pub open spec fn spec_export_lines(vars: Seq<Variable>) -> Seq<char>
    decreases vars.len(),
{
    if vars.len() == 0 {
        Seq::empty()
    } else {
        spec_bash_line(vars[0].name@, vars[0].value@) + spec_export_lines(vars.drop_first())
    }
}

/// Export lines distribute over concatenation.
pub proof fn lemma_export_lines_append(a: Seq<Variable>, b: Seq<Variable>)
    ensures
        spec_export_lines(a + b) == spec_export_lines(a) + spec_export_lines(b),
    decreases a.len(),
{
    if a.len() == 0 {
        assert(a + b =~= b);
        assert(spec_export_lines(a) + spec_export_lines(b) =~= spec_export_lines(b));
    } else {
        assert((a + b).drop_first() =~= a.drop_first() + b);
        lemma_export_lines_append(a.drop_first(), b);
        assert(spec_export_lines(a + b) =~= spec_export_lines(a) + spec_export_lines(b));
    }
}

/// The extra arguments as quoted shell tokens, each escaped and followed
/// by one space.
pub open spec fn spec_arg_tokens(args: Seq<String>) -> Seq<char>
    decreases args.len(),
{
    if args.len() == 0 {
        Seq::empty()
    } else {
        spec_quoted(spec_escape_quote(args[0]@, '"')) + " "@ + spec_arg_tokens(args.drop_first())
    }
}

/// Argument tokens distribute over concatenation.
pub proof fn lemma_arg_tokens_append(a: Seq<String>, b: Seq<String>)
    ensures
        spec_arg_tokens(a + b) == spec_arg_tokens(a) + spec_arg_tokens(b),
    decreases a.len(),
{
    if a.len() == 0 {
        assert(a + b =~= b);
        assert(spec_arg_tokens(a) + spec_arg_tokens(b) =~= spec_arg_tokens(b));
    } else {
        assert((a + b).drop_first() =~= a.drop_first() + b);
        lemma_arg_tokens_append(a.drop_first(), b);
        assert(spec_arg_tokens(a + b) =~= spec_arg_tokens(a) + spec_arg_tokens(b));
    }
}

/// The wrapper shim: it exports the configured variables, then replaces
/// itself with the hidden original binary, the configured arguments first
/// and whatever the shim itself was invoked with after them.
pub open spec fn spec_wrapper_script(
    unwrapped_escaped: Seq<char>,
    args: Seq<String>,
    vars: Seq<Variable>,
) -> Seq<char> {
    "#!/usr/bin/env bash\n"@ + spec_export_lines(vars) + "exec "@ + spec_quoted(unwrapped_escaped)
        + " "@ + spec_arg_tokens(args) + "\"$@\"\n"@
}

/// Renders the wrapper shim for the binary hidden at `unwrapped`. Purely
/// textual; both escaping modes used here are total, so rendering cannot
/// fail.
pub fn generate_binary_wrapper(unwrapped: &Escaped, params: &WrapperParams) -> (r: String)
    ensures
        r@ == spec_wrapper_script(unwrapped.escaped@, params.args@, params.env_vars@),
{
    let mut out = String::new();
    out.append("#!/usr/bin/env bash\n");
    let mut i: usize = 0;
    while i < params.env_vars.len()
        invariant
            i <= params.env_vars@.len(),
            out@ == "#!/usr/bin/env bash\n"@ + spec_export_lines(params.env_vars@.take(i as int)),
        decreases params.env_vars@.len() - i,
    {
        let _res = params.env_vars[i].write_bash_line(&mut out);
        proof {
            let t1 = params.env_vars@.take(i as int);
            let one = seq![params.env_vars@[i as int]];
            assert(one.len() == 1 && one[0] == params.env_vars@[i as int]);
            assert(one.drop_first() =~= Seq::<Variable>::empty());
            assert(spec_export_lines(Seq::<Variable>::empty()) == Seq::<char>::empty());
            assert(spec_export_lines(one) =~= spec_bash_line(
                params.env_vars@[i as int].name@,
                params.env_vars@[i as int].value@,
            ));
            lemma_export_lines_append(t1, one);
            assert(params.env_vars@.take(i as int + 1) =~= t1 + one);
            assert(out@ =~= "#!/usr/bin/env bash\n"@ + spec_export_lines(
                params.env_vars@.take(i as int + 1),
            ));
        }
        i = i + 1;
    }
    proof {
        assert(params.env_vars@.take(params.env_vars@.len() as int) =~= params.env_vars@);
    }
    out.append("exec ");
    out.append("\"");
    out.append(unwrapped.escaped.as_str());
    out.append("\"");
    out.append(" ");
    let ghost mid = "#!/usr/bin/env bash\n"@ + spec_export_lines(params.env_vars@) + "exec "@
        + spec_quoted(unwrapped.escaped@) + " "@;
    proof {
        assert(out@ =~= mid);
    }
    let mut j: usize = 0;
    while j < params.args.len()
        invariant
            j <= params.args@.len(),
            out@ == mid + spec_arg_tokens(params.args@.take(j as int)),
        decreases params.args@.len() - j,
    {
        let escaped = escape_quote(params.args[j].as_str(), '"');
        out.append("\"");
        out.append(escaped.as_str());
        out.append("\"");
        out.append(" ");
        proof {
            let t1 = params.args@.take(j as int);
            let one = seq![params.args@[j as int]];
            assert(one.len() == 1 && one[0] == params.args@[j as int]);
            assert(one.drop_first() =~= Seq::<String>::empty());
            assert(spec_arg_tokens(Seq::<String>::empty()) == Seq::<char>::empty());
            assert(spec_arg_tokens(one) =~= spec_quoted(
                spec_escape_quote(params.args@[j as int]@, '"'),
            ) + " "@);
            lemma_arg_tokens_append(t1, one);
            assert(params.args@.take(j as int + 1) =~= t1 + one);
            assert(out@ =~= mid + spec_arg_tokens(params.args@.take(j as int + 1)));
        }
        j = j + 1;
    }
    proof {
        assert(params.args@.take(params.args@.len() as int) =~= params.args@);
    }
    out.append("\"$@\"\n");
    proof {
        assert(out@ =~= spec_wrapper_script(unwrapped.escaped@, params.args@, params.env_vars@));
    }
    out
}

/// The installer script: it moves the binary at the wrapped path to the
/// hidden path, then writes the wrapper text to the now vacated wrapped
/// path, then sets the execute bit — in exactly this order, aborting on
/// the first failure, so that a failed move leaves the original binary
/// untouched.
pub open spec fn spec_install_script(
    wrapped_escaped: Seq<char>,
    unwrapped_escaped: Seq<char>,
    wrapper_script: Seq<char>,
) -> Seq<char> {
    "#!/usr/bin/env bash\nset -e\nmv "@ + spec_quoted(wrapped_escaped) + " "@ + spec_quoted(
        unwrapped_escaped,
    ) + "\nprintf '%s' '"@ + spec_escape_single_quoted(wrapper_script) + "' > "@ + spec_quoted(
        wrapped_escaped,
    ) + "\nchmod +x "@ + spec_quoted(wrapped_escaped) + "\n"@
}

/// Renders the installer script that swaps `wrapper_script` into place.
/// The wrapper text is embedded between single quotes with every single
/// quote rewritten, which is total, so rendering cannot fail.
pub fn generate_wrapper_install(paths: &GeneratedPaths, wrapper_script: &str) -> (r: String)
    ensures
        r@ == spec_install_script(
            paths.wrapped_path.escaped@,
            paths.unwrapped_path.escaped@,
            wrapper_script@,
        ),
{
    let mut out = String::new();
    out.append("#!/usr/bin/env bash\nset -e\nmv ");
    out.append("\"");
    out.append(paths.wrapped_path.escaped.as_str());
    out.append("\"");
    out.append(" ");
    out.append("\"");
    out.append(paths.unwrapped_path.escaped.as_str());
    out.append("\"");
    out.append("\nprintf '%s' '");
    let embedded = escape_single_quoted(wrapper_script);
    out.append(embedded.as_str());
    out.append("' > ");
    out.append("\"");
    out.append(paths.wrapped_path.escaped.as_str());
    out.append("\"");
    out.append("\nchmod +x ");
    out.append("\"");
    out.append(paths.wrapped_path.escaped.as_str());
    out.append("\"");
    out.append("\n");
    proof {
        assert(out@ =~= spec_install_script(
            paths.wrapped_path.escaped@,
            paths.unwrapped_path.escaped@,
            wrapper_script@,
        ));
    }
    out
}

} // verus!
