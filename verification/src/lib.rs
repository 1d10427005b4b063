//! Binding generator for an engine extension API: from a description of the
//! engine's classes, builtin value types, enums and utility functions to the
//! token streams of the binding modules.
//!
//! The generator works on plain values. The caller runs the engine to obtain
//! the description, decodes it, and writes and formats the files that the
//! generator hands back. A file holds its tokens as text; [`stream::assemble`]
//! makes of them a token stream of `proc_macro2`.

use vstd::prelude::*;

pub mod api_parser;
pub mod central_generator;
pub mod class_generator;
pub mod context;
pub mod inheritance;
pub mod names;
pub mod rust_ty;
pub mod special_cases;
pub mod stream;
pub mod util;
pub mod utilities_generator;
pub mod validation;
pub mod watch;
pub mod wrappers;

use crate::api_parser::{
    load_extension_api, loaded, BuildConfiguration, DumpModel, DumpOutcome, GenerationError,
    GenerationFault,
};
use crate::central_generator::{
    core_central_file, core_mod_file, generate_core_central_file, generate_core_mod_file,
    generate_sys_central_file, generate_sys_mod_file, sys_central_file, sys_mod_file,
};
use crate::class_generator::{
    class_files, generate_class_files, law_unmatched_rule_changes_no_module,
};
use crate::context::{Context, SelectionMode};
use crate::inheritance::ints;
use crate::special_cases::{rule_matches, unmatched, ExceptionTable, RuleModel};
use crate::util::{source_text, FileModel, GeneratedFile};
use crate::utilities_generator::{
    generate_utilities_file, law_unmatched_rule_changes_no_utility, utilities_file,
};

verus! {

/// The files of the low-level root. With `stubs_only` this is the index
/// file alone, and the description is not looked at; else the index file and
/// the central file, or the reason why the description gives none.
pub open spec fn sys_files(dump: DumpModel, config: BuildConfiguration, stubs_only: bool) -> Result<
    Seq<FileModel>,
    GenerationFault,
> {
    if stubs_only {
        Ok(seq![sys_mod_file(true)])
    } else {
        match loaded(dump, config) {
            Ok(api) => Ok(seq![sys_mod_file(false), sys_central_file(api, config)]),
            Err(e) => Err(e),
        }
    }
}

/// What is generated for the high-level root: the files, and the positions
/// of the rules that had no effect because they name nothing that the
/// description has.
#[derive(Clone, Debug, PartialEq, Eq)]
pub struct CoreOutput {
    pub files: Vec<GeneratedFile>,
    pub unmatched_rules: Vec<usize>,
}

/// What a [`CoreOutput`] holds, as a mathematical value.
pub struct CoreOutputModel {
    pub files: Seq<FileModel>,
    pub unmatched_rules: Seq<int>,
}

impl DeepView for CoreOutput {
    type V = CoreOutputModel;

    open spec fn deep_view(&self) -> CoreOutputModel {
        CoreOutputModel {
            files: self.files.deep_view(),
            unmatched_rules: ints(self.unmatched_rules@),
        }
    }
}

/// The files of the high-level root. With `stubs_only` this is the index
/// file alone, and the description is not looked at; else the index file, the
/// central file, the utilities file and the class files, or the reason why
/// the description gives none.
pub open spec fn core_files(
    dump: DumpModel,
    config: BuildConfiguration,
    mode: SelectionMode,
    rules: Seq<RuleModel>,
    stubs_only: bool,
) -> Result<Seq<FileModel>, GenerationFault> {
    if stubs_only {
        Ok(seq![core_mod_file(true)])
    } else {
        match loaded(dump, config) {
            Ok(api) => Ok(
                seq![
                    core_mod_file(false),
                    core_central_file(api, config),
                    utilities_file(api, rules),
                ] + class_files(api, mode, rules),
            ),
            Err(e) => Err(e),
        }
    }
}

/// What is generated for the high-level root: the files, with the rules
/// that name nothing in the loaded description; or the reason why the
/// description gives nothing.
pub open spec fn core_output(
    dump: DumpModel,
    config: BuildConfiguration,
    mode: SelectionMode,
    rules: Seq<RuleModel>,
    stubs_only: bool,
) -> Result<CoreOutputModel, GenerationFault> {
    match core_files(dump, config, mode, rules, stubs_only) {
        Ok(files) => Ok(
            CoreOutputModel {
                files,
                unmatched_rules: if stubs_only {
                    Seq::empty()
                } else {
                    unmatched(loaded(dump, config)->Ok_0, rules, rules.len())
                },
            },
        ),
        Err(e) => Err(e),
    }
}

/// Generates the files of the low-level root from what the engine gave.
/// Where the description cannot be loaded, no file is handed back.
pub fn generate_sys_files(
    dump: DumpOutcome,
    build_config: BuildConfiguration,
    stubs_only: bool,
) -> (r: Result<Vec<GeneratedFile>, GenerationError>)
    ensures
        match r {
            Ok(files) => sys_files(dump.deep_view(), build_config, stubs_only) == Ok::<
                Seq<FileModel>,
                GenerationFault,
            >(files.deep_view()),
            Err(e) => sys_files(dump.deep_view(), build_config, stubs_only) == Err::<
                Seq<FileModel>,
                GenerationFault,
            >(e.deep_view()),
        },
{
    let mut out_files: Vec<GeneratedFile> = Vec::new();
    assert(out_files.deep_view() =~= Seq::<FileModel>::empty());
    generate_sys_mod_file(&mut out_files, stubs_only);
    if stubs_only {
        assert(out_files.deep_view() =~= seq![sys_mod_file(true)]);
        return Ok(out_files);
    }
    match load_extension_api(dump, build_config) {
        Ok((api, config)) => {
            generate_sys_central_file(&api, config, &mut out_files);
            assert(out_files.deep_view() =~= seq![
                sys_mod_file(false),
                sys_central_file(api@, build_config),
            ]);
            Ok(out_files)
        },
        Err(e) => Err(e),
    }
}

/// Generates the files of the high-level root from what the engine gave,
/// and names the rules that had no effect. Where the description cannot be
/// loaded, no file is handed back.
pub fn generate_core_files(
    dump: DumpOutcome,
    build_config: BuildConfiguration,
    mode: SelectionMode,
    rules: &ExceptionTable,
    stubs_only: bool,
) -> (r: Result<CoreOutput, GenerationError>)
    ensures
        match r {
            Ok(output) => core_output(dump.deep_view(), build_config, mode, rules@, stubs_only)
                == Ok::<CoreOutputModel, GenerationFault>(output.deep_view()),
            Err(e) => core_output(dump.deep_view(), build_config, mode, rules@, stubs_only)
                == Err::<CoreOutputModel, GenerationFault>(e.deep_view()),
        },
{
    let mut out_files: Vec<GeneratedFile> = Vec::new();
    assert(out_files.deep_view() =~= Seq::<FileModel>::empty());
    generate_core_mod_file(&mut out_files, stubs_only);
    if stubs_only {
        assert(out_files.deep_view() =~= seq![core_mod_file(true)]);
        let unmatched_rules: Vec<usize> = Vec::new();
        assert(ints(unmatched_rules@) =~= Seq::<int>::empty());
        return Ok(CoreOutput { files: out_files, unmatched_rules });
    }
    match load_extension_api(dump, build_config) {
        Ok((api, config)) => {
            let ctx = Context::build_from_api(&api, mode);
            generate_core_central_file(&api, &ctx, config, &mut out_files);
            generate_utilities_file(&api, &ctx, rules, &mut out_files);
            assert(out_files.deep_view() =~= seq![
                core_mod_file(false),
                core_central_file(api@, build_config),
                utilities_file(api@, rules@),
            ]);
            generate_class_files(&api, &ctx, config, rules, &mut out_files);
            let unmatched_rules = rules.unmatched_rules(&api);
            Ok(CoreOutput { files: out_files, unmatched_rules })
        },
        Err(e) => Err(e),
    }
}

/// Two generations of the high-level root from the same description, build
/// configuration, selection and rules give the same: files with the same
/// paths and the same tokens, and so the same text, or the same reason for
/// giving none.
pub proof fn law_core_generation_repeats(
    dump: DumpModel,
    config: BuildConfiguration,
    mode: SelectionMode,
    rules: Seq<RuleModel>,
    stubs_only: bool,
    first: Result<CoreOutputModel, GenerationFault>,
    second: Result<CoreOutputModel, GenerationFault>,
)
    requires
        first == core_output(dump, config, mode, rules, stubs_only),
        second == core_output(dump, config, mode, rules, stubs_only),
    ensures
        first == second,
        first matches Ok(output) ==> forall|i: int|
            0 <= i < output.files.len() ==> source_text(output.files[i].tokens) == source_text(
                second->Ok_0.files[i].tokens,
            ),
{
}

/// Two generations of the low-level root from the same description and
/// build configuration give the same.
pub proof fn law_sys_generation_repeats(
    dump: DumpModel,
    config: BuildConfiguration,
    stubs_only: bool,
    first: Result<Seq<FileModel>, GenerationFault>,
    second: Result<Seq<FileModel>, GenerationFault>,
)
    requires
        first == sys_files(dump, config, stubs_only),
        second == sys_files(dump, config, stubs_only),
    ensures
        first == second,
        first matches Ok(files) ==> forall|i: int|
            0 <= i < files.len() ==> source_text(files[i].tokens) == source_text(
                second->Ok_0[i].tokens,
            ),
{
}

/// A rule that names nothing that the loaded description has changes
/// nothing: without it the same files are generated.
pub proof fn law_unmatched_rule_changes_nothing(
    dump: DumpModel,
    config: BuildConfiguration,
    mode: SelectionMode,
    rules: Seq<RuleModel>,
    stubs_only: bool,
    i: int,
)
    requires
        0 <= i < rules.len(),
        loaded(dump, config) matches Ok(api) && !rule_matches(api, rules[i]),
    ensures
        core_files(dump, config, mode, rules.remove(i), stubs_only) == core_files(
            dump,
            config,
            mode,
            rules,
            stubs_only,
        ),
{
    let api = loaded(dump, config)->Ok_0;
    law_unmatched_rule_changes_no_module(api, mode, rules, i);
    law_unmatched_rule_changes_no_utility(api, rules, i);
}

/// One run of the formatter: the program and its arguments.
#[derive(Clone, Debug, PartialEq, Eq)]
pub struct FormatCommand {
    pub program: String,
    pub args: Vec<String>,
}

/// What a [`FormatCommand`] holds, as a mathematical value.
pub struct CommandModel {
    pub program: Seq<char>,
    pub args: Seq<Seq<char>>,
}

impl DeepView for FormatCommand {
    type V = CommandModel;

    open spec fn deep_view(&self) -> CommandModel {
        CommandModel { program: self.program@, args: self.args.deep_view() }
    }
}

/// The run of the formatter on `files`.
pub open spec fn format_command(files: Seq<Seq<char>>) -> CommandModel {
    CommandModel {
        program: "rustup"@,
        args: seq!["run"@, "stable"@, "rustfmt"@, "--edition=2021"@] + files,
    }
}

/// The `k`-th batch of twenty paths; the last batch may hold fewer.
pub open spec fn batch(paths: Seq<Seq<char>>, k: int) -> Seq<Seq<char>> {
    paths.subrange(
        20 * k,
        if 20 * k + 20 <= paths.len() {
            20 * k + 20
        } else {
            paths.len() as int
        },
    )
}

/// The runs that format `paths`: one for each batch of twenty, in order;
/// none where formatting is switched off.
pub open spec fn format_commands(paths: Seq<Seq<char>>, enabled: bool) -> Seq<CommandModel> {
    if enabled {
        Seq::new((paths.len() + 19) / 20, |k: int| format_command(batch(paths, k)))
    } else {
        Seq::empty()
    }
}

fn format_batch(paths: &Vec<String>, start: usize, end: usize) -> (r: FormatCommand)
    requires
        start <= end <= paths.len(),
    ensures
        r.deep_view() == format_command(paths.deep_view().subrange(start as int, end as int)),
{
    let mut args: Vec<String> = Vec::new();
    args.push("run".to_owned());
    args.push("stable".to_owned());
    args.push("rustfmt".to_owned());
    args.push("--edition=2021".to_owned());
    let ghost head = seq!["run"@, "stable"@, "rustfmt"@, "--edition=2021"@];
    assert(args.deep_view() =~= head + paths.deep_view().subrange(start as int, start as int));
    let mut i: usize = start;
    while i < end
        invariant
            start <= i <= end <= paths.len(),
            args.deep_view() == head + paths.deep_view().subrange(start as int, i as int),
        decreases end - i,
    {
        let ghost before = args.deep_view();
        args.push(paths[i].clone());
        assert(args.deep_view() =~= before.push(paths[i as int]@));
        assert(args.deep_view() =~= head + paths.deep_view().subrange(
            start as int,
            i as int + 1,
        ));
        i = i + 1;
    }
    FormatCommand { program: "rustup".to_owned(), args }
}

/// Plans the formatting of the written files: the formatter is run on
/// twenty files at a time. With `enabled` unset nothing is formatted.
pub fn rustfmt_if_needed(out_files: &Vec<String>, enabled: bool) -> (r: Vec<FormatCommand>)
    ensures
        r.deep_view() == format_commands(out_files.deep_view(), enabled),
{
    let mut commands: Vec<FormatCommand> = Vec::new();
    if !enabled {
        assert(commands.deep_view() =~= Seq::<CommandModel>::empty());
        return commands;
    }
    let n: usize = out_files.len();
    let mut start: usize = 0;
    while start < n
        invariant
            start <= n,
            n == out_files.len(),
            start < n ==> start % 20 == 0,
            commands.len() == if start < n {
                start as int / 20
            } else {
                (n as int + 19) / 20
            },
            forall|k: int|
                0 <= k < commands.len() ==> (#[trigger] commands[k]).deep_view() == format_command(
                    batch(out_files.deep_view(), k),
                ),
        decreases n - start,
    {
        let end: usize = if n - start > 20 {
            start + 20
        } else {
            n
        };
        let command = format_batch(out_files, start, end);
        assert(command.deep_view() == format_command(
            batch(out_files.deep_view(), start as int / 20),
        ));
        commands.push(command);
        start = end;
    }
    assert(commands.deep_view() =~= format_commands(out_files.deep_view(), enabled));
    commands
}

} // verus!
