use vstd::prelude::*;
use crate::strutil::{chars_eq, str_to_chars};

verus! {

/// What `run` was asked to launch.
#[derive(Debug)]
pub struct RunOptions {
    pub script: String,
    pub args: Vec<String>,
    pub scripts_dir: String,
}

/// Whether a help flag stands before the argument separator.
pub open spec fn spec_wants_help(args: Seq<Seq<char>>, i: int) -> bool
    decreases args.len() - i,
{
    if i < 0 || i >= args.len() {
        false
    } else if args[i] == "--"@ {
        false
    } else if args[i] == "-h"@ || args[i] == "--help"@ {
        true
    } else {
        spec_wants_help(args, i + 1)
    }
}

pub fn wants_help(args: &Vec<String>) -> (r: bool)
    ensures
        r == spec_wants_help(args.deep_view(), 0),
    decreases args@.len(),
{
    wants_help_from(args, 0)
}

fn wants_help_from(args: &Vec<String>, i: usize) -> (r: bool)
    requires
        i <= args@.len(),
    ensures
        r == spec_wants_help(args.deep_view(), i as int),
    decreases args@.len() - i,
{
    if i == args.len() {
        return false;
    }
    proof {
        assert(args.deep_view()[i as int] == args@[i as int]@);
    }
    let a = str_to_chars(args[i].as_str());
    if chars_eq(&a, &str_to_chars("--")) {
        false
    } else if chars_eq(&a, &str_to_chars("-h")) || chars_eq(&a, &str_to_chars("--help")) {
        true
    } else {
        wants_help_from(args, i + 1)
    }
}

/// The pass-through arguments: everything after the script name, with
/// the first separator dropped.
pub open spec fn spec_passthrough(args: Seq<Seq<char>>, i: int, skipped: bool) -> Seq<Seq<char>>
    decreases args.len() - i,
{
    if i < 0 || i >= args.len() {
        Seq::empty()
    } else if !skipped && args[i] == "--"@ {
        spec_passthrough(args, i + 1, true)
    } else {
        seq![args[i]] + spec_passthrough(args, i + 1, skipped)
    }
}

/// Parse the run arguments: the first is the script, the rest pass
/// through, minus one leading separator.
pub fn parse_run_args(args: &Vec<String>, scripts_dir: String) -> (r: Result<RunOptions, String>)
    ensures
        args@.len() == 0 ==> (r matches Err(e) && e@ == "Missing script name. Use `omakure run <script>`."@),
        args@.len() > 0 ==> (r matches Ok(o) && o.script@ == args@[0]@ && o.args.deep_view() == spec_passthrough(args.deep_view(), 1, false) && o.scripts_dir@ == scripts_dir@),
{
    if args.len() == 0 {
        return Err(String::from_str("Missing script name. Use `omakure run <script>`."));
    }
    let script = args[0].clone();
    let n = args.len();
    let mut passthrough: Vec<String> = Vec::new();
    let mut skipped = false;
    let mut i: usize = 1;
    proof {
        assert(spec_passthrough(args.deep_view(), 1, false) == passthrough.deep_view() + spec_passthrough(args.deep_view(), 1, false));
    }
    while i < n
        invariant
            n == args@.len(),
            1 <= i <= n,
            spec_passthrough(args.deep_view(), 1, false) == passthrough.deep_view() + spec_passthrough(args.deep_view(), i as int, skipped),
        decreases n - i,
    {
        proof {
            assert(args.deep_view()[i as int] == args@[i as int]@);
        }
        let ghost prev = passthrough.deep_view();
        if !skipped && chars_eq(&str_to_chars(args[i].as_str()), &str_to_chars("--")) {
            skipped = true;
        } else {
            passthrough.push(args[i].clone());
            proof {
                assert(passthrough.deep_view() =~~= prev.push(args.deep_view()[i as int]));
            }
        }
        proof {
            assert(spec_passthrough(args.deep_view(), 1, false) =~~= passthrough.deep_view() + spec_passthrough(args.deep_view(), i + 1, skipped));
        }
        i = i + 1;
    }
    proof {
        assert(passthrough.deep_view() =~~= spec_passthrough(args.deep_view(), 1, false));
    }
    Ok(RunOptions { script, args: passthrough, scripts_dir })
}

/// The shell-completion script for bash.
pub fn bash_completion() -> (r: String)
    ensures
        r@.len() > 0,
{
    proof {
        reveal_strlit("_omakure_complete() {\n  local cur prev\n  cur=\"${COMP_WORDS[COMP_CWORD]}\"\n  prev=\"${COMP_WORDS[COMP_CWORD-1]}\"\n\n  local commands=\"update uninstall doctor check list install scripts run init config env completion help version\"\n\n  if [[ ${COMP_CWORD} -eq 1 ]]; then\n    COMPREPLY=( $(compgen -W \"${commands}\" -- \"${cur}\") )\n    return 0\n  fi\n\n  case \"${prev}\" in\n    update)\n      COMPREPLY=( $(compgen -W \"--repo --version\" -- \"${cur}\") )\n      return 0\n      ;;\n    uninstall)\n      COMPREPLY=( $(compgen -W \"--scripts\" -- \"${cur}\") )\n      return 0\n      ;;\n    install)\n      COMPREPLY=( $(compgen -W \"--name\" -- \"${cur}\") )\n      return 0\n      ;;\n    completion)\n      COMPREPLY=( $(compgen -W \"bash zsh fish pwsh\" -- \"${cur}\") )\n      return 0\n      ;;\n  esac\n}\n\ncomplete -F _omakure_complete omakure\n");
    }
    String::from_str("_omakure_complete() {\n  local cur prev\n  cur=\"${COMP_WORDS[COMP_CWORD]}\"\n  prev=\"${COMP_WORDS[COMP_CWORD-1]}\"\n\n  local commands=\"update uninstall doctor check list install scripts run init config env completion help version\"\n\n  if [[ ${COMP_CWORD} -eq 1 ]]; then\n    COMPREPLY=( $(compgen -W \"${commands}\" -- \"${cur}\") )\n    return 0\n  fi\n\n  case \"${prev}\" in\n    update)\n      COMPREPLY=( $(compgen -W \"--repo --version\" -- \"${cur}\") )\n      return 0\n      ;;\n    uninstall)\n      COMPREPLY=( $(compgen -W \"--scripts\" -- \"${cur}\") )\n      return 0\n      ;;\n    install)\n      COMPREPLY=( $(compgen -W \"--name\" -- \"${cur}\") )\n      return 0\n      ;;\n    completion)\n      COMPREPLY=( $(compgen -W \"bash zsh fish pwsh\" -- \"${cur}\") )\n      return 0\n      ;;\n  esac\n}\n\ncomplete -F _omakure_complete omakure\n")
}

/// The shell-completion script for zsh.
pub fn zsh_completion() -> (r: String)
    ensures
        r@.len() > 0,
{
    proof {
        reveal_strlit("#compdef omakure\n\n_omakure() {\n  local -a commands\n  commands=(\n    'update:Update omakure from GitHub Releases'\n    'uninstall:Remove the omakure binary'\n    'doctor:Check runtime dependencies and workspace'\n    'check:Alias for doctor'\n    'list:List Omaken flavors'\n    'install:Install an Omaken flavor'\n    'scripts:List available scripts'\n    'run:Run a script without the TUI'\n    'init:Create a new script template'\n    'config:Show resolved paths and env'\n    'env:Alias for config'\n    'completion:Generate shell completion'\n    'help:Show help'\n    'version:Show version'\n  )\n\n  _arguments \\\n    '1:command:->command' \\\n    '*::arg:->args'\n\n  case $state in\n    command)\n      _describe -t commands 'omakure commands' commands\n      ;;\n    args)\n      case $words[2] in\n        update)\n          _arguments '--repo[GitHub repository]' '--version[Release tag]'\n          ;;\n        uninstall)\n          _arguments '--scripts[Remove scripts directory]'\n          ;;\n        install)\n          _arguments '--name[Override the target folder name]'\n          ;;\n        completion)\n          _arguments '1:shell:(bash zsh fish pwsh)'\n          ;;\n      esac\n      ;;\n  esac\n}\n\n_omakure \"$@\"\n");
    }
    String::from_str("#compdef omakure\n\n_omakure() {\n  local -a commands\n  commands=(\n    'update:Update omakure from GitHub Releases'\n    'uninstall:Remove the omakure binary'\n    'doctor:Check runtime dependencies and workspace'\n    'check:Alias for doctor'\n    'list:List Omaken flavors'\n    'install:Install an Omaken flavor'\n    'scripts:List available scripts'\n    'run:Run a script without the TUI'\n    'init:Create a new script template'\n    'config:Show resolved paths and env'\n    'env:Alias for config'\n    'completion:Generate shell completion'\n    'help:Show help'\n    'version:Show version'\n  )\n\n  _arguments \\\n    '1:command:->command' \\\n    '*::arg:->args'\n\n  case $state in\n    command)\n      _describe -t commands 'omakure commands' commands\n      ;;\n    args)\n      case $words[2] in\n        update)\n          _arguments '--repo[GitHub repository]' '--version[Release tag]'\n          ;;\n        uninstall)\n          _arguments '--scripts[Remove scripts directory]'\n          ;;\n        install)\n          _arguments '--name[Override the target folder name]'\n          ;;\n        completion)\n          _arguments '1:shell:(bash zsh fish pwsh)'\n          ;;\n      esac\n      ;;\n  esac\n}\n\n_omakure \"$@\"\n")
}

/// The shell-completion script for fish.
pub fn fish_completion() -> (r: String)
    ensures
        r@.len() > 0,
{
    proof {
        reveal_strlit("complete -c omakure -f -a \"update uninstall doctor check list install scripts run init config env completion help version\"\ncomplete -c omakure -n '__fish_seen_subcommand_from update' -l repo -d \"GitHub repository\"\ncomplete -c omakure -n '__fish_seen_subcommand_from update' -l version -d \"Release tag\"\ncomplete -c omakure -n '__fish_seen_subcommand_from uninstall' -l scripts -d \"Remove scripts directory\"\ncomplete -c omakure -n '__fish_seen_subcommand_from install' -l name -d \"Override the target folder name\"\ncomplete -c omakure -n '__fish_seen_subcommand_from completion' -f -a \"bash zsh fish pwsh\"\n");
    }
    String::from_str("complete -c omakure -f -a \"update uninstall doctor check list install scripts run init config env completion help version\"\ncomplete -c omakure -n '__fish_seen_subcommand_from update' -l repo -d \"GitHub repository\"\ncomplete -c omakure -n '__fish_seen_subcommand_from update' -l version -d \"Release tag\"\ncomplete -c omakure -n '__fish_seen_subcommand_from uninstall' -l scripts -d \"Remove scripts directory\"\ncomplete -c omakure -n '__fish_seen_subcommand_from install' -l name -d \"Override the target folder name\"\ncomplete -c omakure -n '__fish_seen_subcommand_from completion' -f -a \"bash zsh fish pwsh\"\n")
}

/// The shell-completion script for PowerShell.
pub fn pwsh_completion() -> (r: String)
    ensures
        r@.len() > 0,
{
    proof {
        reveal_strlit("Register-ArgumentCompleter -Native -CommandName omakure -ScriptBlock {\n    param($wordToComplete, $commandAst, $cursorPosition)\n    $commands = @('update','uninstall','doctor','check','list','install','scripts','run','init','config','env','completion','help','version')\n    $elements = $commandAst.CommandElements\n    if ($elements.Count -le 2) {\n        $commands | Where-Object { $_ -like \"$wordToComplete*\" } | ForEach-Object {\n            [System.Management.Automation.CompletionResult]::new($_, $_, 'ParameterValue', $_)\n        }\n        return\n    }\n\n    $sub = $elements[1].Value\n    $options = @()\n    switch ($sub) {\n        'update' { $options = @('--repo','--version') }\n        'uninstall' { $options = @('--scripts') }\n        'install' { $options = @('--name') }\n        'completion' { $options = @('bash','zsh','fish','pwsh') }\n    }\n\n    $options | Where-Object { $_ -like \"$wordToComplete*\" } | ForEach-Object {\n        [System.Management.Automation.CompletionResult]::new($_, $_, 'ParameterValue', $_)\n    }\n}\n");
    }
    String::from_str("Register-ArgumentCompleter -Native -CommandName omakure -ScriptBlock {\n    param($wordToComplete, $commandAst, $cursorPosition)\n    $commands = @('update','uninstall','doctor','check','list','install','scripts','run','init','config','env','completion','help','version')\n    $elements = $commandAst.CommandElements\n    if ($elements.Count -le 2) {\n        $commands | Where-Object { $_ -like \"$wordToComplete*\" } | ForEach-Object {\n            [System.Management.Automation.CompletionResult]::new($_, $_, 'ParameterValue', $_)\n        }\n        return\n    }\n\n    $sub = $elements[1].Value\n    $options = @()\n    switch ($sub) {\n        'update' { $options = @('--repo','--version') }\n        'uninstall' { $options = @('--scripts') }\n        'install' { $options = @('--name') }\n        'completion' { $options = @('bash','zsh','fish','pwsh') }\n    }\n\n    $options | Where-Object { $_ -like \"$wordToComplete*\" } | ForEach-Object {\n        [System.Management.Automation.CompletionResult]::new($_, $_, 'ParameterValue', $_)\n    }\n}\n")
}

} // verus!
