//! Shell-command templating: what one built hook invocation looks like, and
//! the single command line assembled from a template list and a game record.

use crate::game::{GameView, spec_replace_vars};
use crate::strutil::spec_join;
use vstd::prelude::*;

verus! {

/// One shell invocation: the program to spawn and its argument list.
pub struct ShellCommand {
    pub program: String,
    pub args: Vec<String>,
}

/// The single command line built from the templates: the templates joined
/// with `&&`, with the record's variables substituted when a record is given.
pub open spec fn spec_command_line(cmds: Seq<Seq<char>>, game: Option<GameView>) -> Seq<char> {
    let joined = spec_join(cmds, "&&"@);
    match game {
        Some(g) => spec_replace_vars(g, joined),
        None => joined,
    }
}

/// No command is built from an empty template list ("hook not configured",
/// never an error); otherwise the invocation is `shell -c <command line>`.
pub open spec fn command_built(
    r: Option<ShellCommand>,
    shell: Seq<char>,
    cmds: Seq<Seq<char>>,
    game: Option<GameView>,
) -> bool {
    match r {
        None => cmds.len() == 0,
        Some(c) => cmds.len() > 0 && c.program@ == shell && c.args@.len() == 2 && c.args@[0]@
            == "-c"@ && c.args@[1]@ == spec_command_line(cmds, game),
    }
}

/// The outcome of one hook execution: a hook that was never configured
/// succeeds as a soft no-op, never an error; a configured hook fails exactly
/// when its command's exit status is non-success, carrying the hook's
/// description and the exit code.
pub fn hook_result(configured: bool, exit_success: bool, exit_code: i32, description: &str) -> (r:
    Result<(), crate::errors::GgError>)
    ensures
        r is Ok <==> (!configured || exit_success),
        r matches Err(e) ==> (e matches crate::errors::GgError::HookError {
            description: d,
            exit_code: c,
        } && d@ == description@ && c == exit_code),
{
    if configured && !exit_success {
        Err(
            crate::errors::GgError::HookError {
                description: description.to_owned(),
                exit_code,
            },
        )
    } else {
        Ok(())
    }
}

/// The template list the run workflow uses: the per-game override with each
/// template's first `$RUN` replaced by the global run line, or the global
/// templates themselves when the record has no override.
pub open spec fn spec_effective_run_templates(
    g: GameView,
    global: Seq<Seq<char>>,
) -> Seq<Seq<char>> {
    match g.run_commands {
        Some(cs) => cs.map_values(
            |c: Seq<char>| crate::strutil::spec_replace_first(c, "$RUN"@, spec_join(global, "&&"@)),
        ),
        None => global,
    }
}

} // verus!
