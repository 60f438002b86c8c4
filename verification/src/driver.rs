//! The chacc compiler driver.
//!
//! Similar to gcc, apart from being a C compiler, chacc is also a higher-level
//! driver that manages the entire compilation process, which involves cc1
//! (the chacc compiler proper), as (the GNU assembler), and ld (the GNU
//! linker).

use vstd::prelude::*;
use crate::ascii;
use crate::cli::{Cli, CliInputKind, CliView};
use crate::names::{name_views, same_bytes};
use crate::source::copy_bytes;
use crate::utils::{padded_hex, push_bytes, push_padded_hex};

verus! {

/// A compilation stage.
#[derive(Clone, Copy, Debug, PartialEq, Eq, Structural)]
pub enum Stage {
    Compile,
    Assemble,
    Link,
}

/// Where a stage comes in the order of stages.
pub open spec fn stage_rank(stage: Stage) -> int {
    match stage {
        Stage::Compile => 0,
        Stage::Assemble => 1,
        Stage::Link => 2,
    }
}

/// The stage that an input starts from.
pub open spec fn start_stage(kind: CliInputKind) -> Stage {
    match kind {
        CliInputKind::C => Stage::Compile,
        CliInputKind::Assembler => Stage::Assemble,
        CliInputKind::Object => Stage::Link,
    }
}

/// The last stage to run.
pub open spec fn final_stage(cli: CliView) -> Stage {
    if cli.preprocess_only || cli.compile_only {
        Stage::Compile
    } else if cli.assemble_only {
        Stage::Assemble
    } else {
        Stage::Link
    }
}

impl Stage {
    /// Return the next stage of the current stage.
    pub fn next(self) -> (r: Option<Stage>)
        ensures
            r is None <==> self == Stage::Link,
            r is Some ==> stage_rank(r.unwrap()) == stage_rank(self) + 1,
    {
        match self {
            Stage::Compile => Some(Stage::Assemble),
            Stage::Assemble => Some(Stage::Link),
            Stage::Link => None,
        }
    }

    /// The file extension for the output of a stage.
    pub open spec fn spec_ext(self) -> Seq<char> {
        match self {
            Stage::Compile => "s"@,
            Stage::Assemble => "o"@,
            Stage::Link => ""@,
        }
    }

    /// Return the file extension for the output of the current stage.
    pub fn ext(self) -> (r: &'static str)
        ensures
            r@ == self.spec_ext(),
    {
        match self {
            Stage::Compile => "s",
            Stage::Assemble => "o",
            Stage::Link => "",
        }
    }

    /// Convert the CLI input kind to the stage it should start from.
    pub fn from_kind(kind: CliInputKind) -> (r: Stage)
        ensures
            r == start_stage(kind),
    {
        match kind {
            CliInputKind::C => Stage::Compile,
            CliInputKind::Assembler => Stage::Assemble,
            CliInputKind::Object => Stage::Link,
        }
    }

    fn rank(self) -> (r: u8)
        ensures
            r == stage_rank(self),
    {
        match self {
            Stage::Compile => 0,
            Stage::Assemble => 1,
            Stage::Link => 2,
        }
    }
}

/// A file that a job reads or writes.
#[derive(Clone, Copy, Debug, PartialEq, Eq, Structural)]
pub enum JobPath {
    /// The input itself.
    Input,
    /// The output that the command line gives.
    Output,
    /// The standard output.
    Stdout,
    /// The input with the extension of a stage.
    InputWithExt(Stage),
    /// The output that the command line gives, with the extension of a stage.
    OutputWithExt(Stage),
    /// A file in the temporary directory of the job, with the extension of a
    /// stage.
    Temp(Stage),
    /// A file next to the output of the linker, which is named after both that
    /// output and the input, with the extension of a stage.
    Saved(Stage),
}

/// A stage of a job.
#[derive(Clone, Copy, Debug, PartialEq, Eq, Structural)]
pub struct Task {
    pub input: JobPath,
    pub output: JobPath,
}

/// A single-file compilation job.
#[derive(Clone, Copy, Debug, PartialEq, Eq, Structural)]
pub struct Job {
    /// The index of the input.
    pub input: usize,
    pub compile: Option<Task>,
    pub assemble: Option<Task>,
    /// Whether another input has the same stem, so that saved files need a
    /// hash of the path in their names.
    pub hashed: bool,
}

/// A file to be linked.
#[derive(Clone, Copy, Debug, PartialEq, Eq, Structural)]
pub struct LinkInput {
    /// The index of the input.
    pub input: usize,
    pub path: JobPath,
    pub hashed: bool,
}

/// The overall compilation plan.
#[derive(Debug)]
pub struct Plan {
    pub jobs: Vec<Job>,
    /// The files for linking, if needed.
    pub link: Option<Vec<LinkInput>>,
}

/// The output of a stage.
#[verifier::opaque]
pub open spec fn stage_output(cli: CliView, stage: Stage) -> JobPath {
    if stage == final_stage(cli) {
        if cli.output is Some {
            JobPath::Output
        } else if cli.preprocess_only {
            JobPath::Stdout
        } else {
            JobPath::InputWithExt(stage)
        }
    } else if !cli.save_temps {
        JobPath::Temp(stage)
    } else if final_stage(cli) == Stage::Link {
        JobPath::Saved(stage)
    } else if cli.output is Some {
        JobPath::OutputWithExt(stage)
    } else {
        JobPath::InputWithExt(stage)
    }
}

/// Whether a stage other than linking is run on an input.
pub open spec fn runs(cli: CliView, kind: CliInputKind, stage: Stage) -> bool {
    stage_rank(start_stage(kind)) <= stage_rank(stage) <= stage_rank(final_stage(cli))
}

/// How many of the first `n` stems are the given one.
pub open spec fn stem_count(stems: Seq<Seq<u8>>, stem: Seq<u8>, n: nat) -> int
    decreases n,
{
    if n == 0 {
        0
    } else {
        stem_count(stems, stem, (n - 1) as nat) + (if stems[n - 1] == stem {
            1int
        } else {
            0
        })
    }
}

/// The job for an input.
#[verifier::opaque]
pub open spec fn job_for(cli: CliView, stems: Seq<Seq<u8>>, k: usize) -> Job {
    let kind = cli.inputs[k as int].kind;
    let compiled = stage_output(cli, Stage::Compile);
    Job {
        input: k,
        compile: if runs(cli, kind, Stage::Compile) {
            Some(Task { input: JobPath::Input, output: compiled })
        } else {
            None
        },
        assemble: if runs(cli, kind, Stage::Assemble) {
            Some(
                Task {
                    input: if runs(cli, kind, Stage::Compile) {
                        compiled
                    } else {
                        JobPath::Input
                    },
                    output: stage_output(cli, Stage::Assemble),
                },
            )
        } else {
            None
        },
        hashed: stem_count(stems, stems[k as int], stems.len()) > 1,
    }
}

/// What a job leaves for the linker.
pub open spec fn job_result(job: Job) -> JobPath {
    match (job.assemble, job.compile) {
        (Some(task), _) => task.output,
        (None, Some(task)) => task.output,
        (None, None) => JobPath::Input,
    }
}

/// Whether anything is done with an input.
pub open spec fn is_used(cli: CliView, k: int) -> bool {
    stage_rank(start_stage(cli.inputs[k].kind)) <= stage_rank(final_stage(cli))
}

/// The jobs for the first `n` inputs that need one.
pub open spec fn jobs_for(cli: CliView, stems: Seq<Seq<u8>>, n: nat) -> Seq<Job>
    decreases n,
{
    if n == 0 {
        Seq::empty()
    } else {
        let before = jobs_for(cli, stems, (n - 1) as nat);
        let job = job_for(cli, stems, (n - 1) as usize);
        if is_used(cli, n - 1) && (job.compile is Some || job.assemble is Some) {
            before.push(job)
        } else {
            before
        }
    }
}

/// What the first `n` inputs leave for the linker.
pub open spec fn links_for(cli: CliView, stems: Seq<Seq<u8>>, n: nat) -> Seq<LinkInput>
    decreases n,
{
    if n == 0 {
        Seq::empty()
    } else {
        let before = links_for(cli, stems, (n - 1) as nat);
        let job = job_for(cli, stems, (n - 1) as usize);
        if is_used(cli, n - 1) {
            before.push(
                LinkInput {
                    input: (n - 1) as usize,
                    path: job_result(job),
                    hashed: job.hashed,
                },
            )
        } else {
            before
        }
    }
}

/// Each stage of a job reads what the stage before it wrote, and the first one
/// reads the input.
pub proof fn stages_read_what_was_written(cli: CliView, stems: Seq<Seq<u8>>, k: usize)
    requires
        k < cli.inputs.len(),
    ensures
        ({
            let job = job_for(cli, stems, k);
            &&& job.compile is Some ==> job.compile.unwrap().input == JobPath::Input
            &&& job.compile is None && job.assemble is Some ==> job.assemble.unwrap().input
                == JobPath::Input
            &&& job.compile is Some && job.assemble is Some ==> job.assemble.unwrap().input
                == job.compile.unwrap().output
            &&& job.compile is Some <==> cli.inputs[k as int].kind == CliInputKind::C
        }),
{
    reveal(job_for);
}

/// If the files are linked, every input is, in the order of the command line,
/// and what is linked is what its job wrote last.
pub proof fn every_input_is_linked(cli: CliView, stems: Seq<Seq<u8>>, n: nat, k: int)
    requires
        final_stage(cli) == Stage::Link,
        0 <= k < n <= cli.inputs.len() <= usize::MAX,
    ensures
        links_for(cli, stems, n).len() == n,
        links_for(cli, stems, n)[k].input == k,
        links_for(cli, stems, n)[k].path == job_result(job_for(cli, stems, k as usize)),
    decreases n,
{
    assert(links_for(cli, stems, 0).len() == 0);
    if n > 1 {
        every_input_is_linked(cli, stems, (n - 1) as nat, if k < n - 1 {
            k
        } else {
            0
        });
    }
}

/// Inputs with the same stem all get a hash in the names of their saved files.
pub proof fn inputs_with_the_same_stem_are_told_apart(
    cli: CliView,
    stems: Seq<Seq<u8>>,
    i: usize,
    j: usize,
)
    requires
        i < j < stems.len(),
        stems[i as int] == stems[j as int],
    ensures
        job_for(cli, stems, i).hashed,
        job_for(cli, stems, j).hashed,
{
    reveal(job_for);
    both_are_counted(stems, i as int, j as int, stems.len());
}

proof fn both_are_counted(stems: Seq<Seq<u8>>, i: int, j: int, n: nat)
    requires
        0 <= i < j < stems.len(),
        n <= stems.len(),
        stems[i] == stems[j],
    ensures
        stem_count(stems, stems[i], n) >= (if i < n {
            1int
        } else {
            0
        }) + (if j < n {
            1int
        } else {
            0
        }),
    decreases n,
{
    if n > 0 {
        both_are_counted(stems, i, j, (n - 1) as nat);
    }
}

fn output_of_stage(cli: &Cli, stage: Stage, last: Stage) -> (r: JobPath)
    requires
        last == final_stage(cli@),
    ensures
        r == stage_output(cli@, stage),
{
    proof {
        reveal(stage_output);
    }
    if stage == last {
        // Final non-linking stage, either output path if provided, or use input
        // path with the appropriate extension, or default to "-" if
        // preprocessing only
        if cli.output.is_some() {
            JobPath::Output
        } else if cli.preprocess_only {
            JobPath::Stdout
        } else {
            JobPath::InputWithExt(stage)
        }
    } else if !cli.save_temps {
        // Intermediate stage without keeping temps, which goes to the temporary
        // directory of the job where there would never be collisions
        JobPath::Temp(stage)
    } else if last == Stage::Link {
        // Intermediate stage, and final stage is linking, then we use
        // "$output-$input" as the stage output name, and keep it in the same
        // directory as the final linking output
        JobPath::Saved(stage)
    } else if cli.output.is_some() {
        // Intermediate stage, and final stage is not linking, then infer from
        // either output or input path with the appropriate extension
        JobPath::OutputWithExt(stage)
    } else {
        JobPath::InputWithExt(stage)
    }
}

fn count_stem(stems: &Vec<Vec<u8>>, stem: &[u8]) -> (r: usize)
    ensures
        r == stem_count(name_views(stems@), stem@, stems@.len()),
{
    let mut count: usize = 0;
    let mut n: usize = 0;
    while n < stems.len()
        invariant
            n <= stems.len(),
            count <= n,
            count == stem_count(name_views(stems@), stem@, n as nat),
        decreases stems.len() - n,
    {
        assert(name_views(stems@)[n as int] == stems@[n as int]@);
        if same_bytes(stems[n].as_slice(), stem) {
            count += 1;
        }
        n += 1;
    }
    count
}

/// Produce the compilation plan.
///
/// The stems are those of the file names of the inputs.
pub fn plan(cli: &Cli, stems: &Vec<Vec<u8>>) -> (r: Plan)
    requires
        stems@.len() == cli.inputs@.len(),
    ensures
        r.jobs@ == jobs_for(cli@, name_views(stems@), stems@.len()),
        (r.link is Some) == (final_stage(cli@) == Stage::Link),
        r.link is Some ==> r.link.unwrap()@ == links_for(cli@, name_views(stems@), stems@.len()),
{
    let last = if cli.preprocess_only || cli.compile_only {
        Stage::Compile
    } else if cli.assemble_only {
        Stage::Assemble
    } else {
        Stage::Link
    };
    let mut jobs: Vec<Job> = Vec::new();
    let mut links: Vec<LinkInput> = Vec::new();
    let mut n: usize = 0;
    assert(jobs@ =~= jobs_for(cli@, name_views(stems@), 0));
    assert(links@ =~= links_for(cli@, name_views(stems@), 0));
    while n < stems.len()
        invariant
            stems@.len() == cli.inputs@.len(),
            n <= stems.len(),
            last == final_stage(cli@),
            jobs@ == jobs_for(cli@, name_views(stems@), n as nat),
            links@ == links_for(cli@, name_views(stems@), n as nat),
        decreases stems.len() - n,
    {
        assert(cli@.inputs[n as int] == cli.inputs@[n as int]@);
        let start = Stage::from_kind(cli.inputs[n].kind);
        if start.rank() <= last.rank() {
            let job = make_job(cli, stems, n, start, last);
            if job.compile.is_some() || job.assemble.is_some() {
                jobs.push(job);
            }
            // If no stages are run, this is just the original input that should
            // directly go to the linker; otherwise this is the output of the
            // last stage that is performed and should be linked
            let path = match (job.assemble, job.compile) {
                (Some(task), _) => task.output,
                (None, Some(task)) => task.output,
                (None, None) => JobPath::Input,
            };
            links.push(LinkInput { input: n, path, hashed: job.hashed });
        }
        n += 1;
    }
    Plan {
        jobs,
        link: if last == Stage::Link {
            Some(links)
        } else {
            None
        },
    }
}

fn make_job(cli: &Cli, stems: &Vec<Vec<u8>>, k: usize, start: Stage, last: Stage) -> (r: Job)
    requires
        stems@.len() == cli.inputs@.len(),
        k < stems@.len(),
        start == start_stage(cli.inputs@[k as int].kind),
        last == final_stage(cli@),
    ensures
        r == job_for(cli@, name_views(stems@), k),
{
    proof {
        reveal(job_for);
    }
    assert(cli@.inputs[k as int] == cli.inputs@[k as int]@);
    assert(name_views(stems@)[k as int] == stems@[k as int]@);
    let hashed = count_stem(stems, stems[k].as_slice()) > 1;
    let mut job = Job { input: k, compile: None, assemble: None, hashed };
    let mut current = JobPath::Input;
    if start.rank() <= 0 {
        let next = output_of_stage(cli, Stage::Compile, last);
        job.compile = Some(Task { input: current, output: next });
        current = next;
    }
    if start.rank() <= 1 && last.rank() >= 1 {
        let next = output_of_stage(cli, Stage::Assemble, last);
        job.assemble = Some(Task { input: current, output: next });
    }
    job
}

/// The name of a saved file without extension: the stem of the output of the
/// linker, the stem of the input, and a hash if there is one.
#[verifier::opaque]
pub open spec fn saved_name(output_stem: Seq<u8>, input_stem: Seq<u8>, hash: Option<u64>) -> Seq<u8> {
    let tagged = output_stem.push(ascii::MINUS) + input_stem;
    match hash {
        Some(hash) => tagged.push(ascii::MINUS) + padded_hex(hash as nat, 8),
        None => tagged,
    }
}

/// Return the name of a saved file without extension.
pub fn name_saved(output_stem: &[u8], input_stem: &[u8], hash: Option<u64>) -> (r: Vec<u8>)
    ensures
        r@ == saved_name(output_stem@, input_stem@, hash),
{
    proof {
        reveal(saved_name);
    }
    let mut out = copy_bytes(output_stem);
    out.push(ascii::MINUS);
    push_bytes(&mut out, input_stem);
    if let Some(hash) = hash {
        out.push(ascii::MINUS);
        push_padded_hex(&mut out, hash, 8);
    }
    out
}

/// A file that linking needs, in the order of the command line of the linker.
pub struct LinkFiles {
    pub dynamic_linker: Vec<u8>,
    pub crt1: Vec<u8>,
    pub crti: Vec<u8>,
    pub crtbegin: Vec<u8>,
    pub libc: Vec<u8>,
    pub libgcc: Vec<u8>,
    pub libgcc_s: Vec<u8>,
    pub crtend: Vec<u8>,
    pub crtn: Vec<u8>,
}

pub open spec fn word(text: Seq<char>) -> Seq<u8> {
    vstd::utf8::encode_utf8(text)
}

/// The include directories as options, from `k` on.
pub open spec fn include_args(includes: Seq<Seq<u8>>, n: nat) -> Seq<Seq<u8>>
    decreases n,
{
    if n == 0 {
        Seq::empty()
    } else {
        include_args(includes, (n - 1) as nat).push(word("-I"@)).push(includes[n - 1])
    }
}

/// The arguments of the compiler proper.
#[verifier::opaque]
pub open spec fn compile_args(
    preprocess_only: bool,
    output: Seq<u8>,
    includes: Seq<Seq<u8>>,
    input: Seq<u8>,
) -> Seq<Seq<u8>> {
    let mode = if preprocess_only {
        seq![word("-cc1"@), word("-E"@)]
    } else {
        seq![word("-cc1"@)]
    };
    mode.push(word("-o"@)).push(output) + include_args(includes, includes.len()) + seq![
        word("--"@),
        input,
    ]
}

/// The arguments of the assembler.
pub open spec fn assemble_args(input: Seq<u8>, output: Seq<u8>) -> Seq<Seq<u8>> {
    seq![word("-c"@), input, word("-o"@), output]
}

/// The arguments of the linker.
#[verifier::opaque]
pub open spec fn link_args(output: Seq<u8>, inputs: Seq<Seq<u8>>, files: LinkFiles) -> Seq<Seq<u8>> {
    seq![
        word("-o"@),
        output,
        word("-m"@),
        word("elf_x86_64"@),
        word("-dynamic-linker"@),
        files.dynamic_linker@,
        files.crt1@,
        files.crti@,
        files.crtbegin@,
    ] + inputs + seq![
        files.libc@,
        files.libgcc@,
        word("--as-needed"@),
        files.libgcc_s@,
        word("--no-as-needed"@),
        files.crtend@,
        files.crtn@,
    ]
}

fn push_word(args: &mut Vec<Vec<u8>>, word: &str)
    ensures
        name_views(final(args)@) == name_views(old(args)@).push(vstd::utf8::encode_utf8(word@)),
{
    args.push(copy_bytes(word.as_bytes()));
    assert(name_views(args@) =~= name_views(old(args)@).push(vstd::utf8::encode_utf8(word@)));
}

fn push_path(args: &mut Vec<Vec<u8>>, path: &Vec<u8>)
    ensures
        name_views(final(args)@) == name_views(old(args)@).push(path@),
{
    args.push(copy_bytes(path.as_slice()));
    assert(name_views(args@) =~= name_views(old(args)@).push(path@));
}

/// Return the arguments of the compiler proper.
pub fn compile_command(
    preprocess_only: bool,
    output: &Vec<u8>,
    includes: &Vec<Vec<u8>>,
    input: &Vec<u8>,
) -> (r: Vec<Vec<u8>>)
    ensures
        name_views(r@) == compile_args(preprocess_only, output@, name_views(includes@), input@),
{
    proof {
        reveal(compile_args);
    }
    let mut args: Vec<Vec<u8>> = Vec::new();
    push_word(&mut args, "-cc1");
    if preprocess_only {
        push_word(&mut args, "-E");
    }
    push_word(&mut args, "-o");
    push_path(&mut args, output);
    let ghost head = name_views(args@);
    let mut n: usize = 0;
    assert(name_views(args@) =~= head + include_args(name_views(includes@), 0));
    while n < includes.len()
        invariant
            n <= includes.len(),
            name_views(args@) == head + include_args(name_views(includes@), n as nat),
        decreases includes.len() - n,
    {
        push_word(&mut args, "-I");
        push_path(&mut args, &includes[n]);
        n += 1;
        assert(name_views(args@) =~= head + include_args(name_views(includes@), n as nat));
    }
    push_word(&mut args, "--");
    push_path(&mut args, input);
    assert(name_views(args@) =~= compile_args(
        preprocess_only,
        output@,
        name_views(includes@),
        input@,
    ));
    args
}

/// Return the arguments of the assembler.
pub fn assemble_command(input: &Vec<u8>, output: &Vec<u8>) -> (r: Vec<Vec<u8>>)
    ensures
        name_views(r@) == assemble_args(input@, output@),
{
    let mut args: Vec<Vec<u8>> = Vec::new();
    push_word(&mut args, "-c");
    push_path(&mut args, input);
    push_word(&mut args, "-o");
    push_path(&mut args, output);
    assert(name_views(args@) =~= assemble_args(input@, output@));
    args
}

/// Return the arguments of the linker.
pub fn link_command(output: &Vec<u8>, inputs: &Vec<Vec<u8>>, files: &LinkFiles) -> (r: Vec<Vec<u8>>)
    ensures
        name_views(r@) == link_args(output@, name_views(inputs@), *files),
{
    proof {
        reveal(link_args);
    }
    let mut args: Vec<Vec<u8>> = Vec::new();
    push_word(&mut args, "-o");
    push_path(&mut args, output);
    push_word(&mut args, "-m");
    push_word(&mut args, "elf_x86_64");
    push_word(&mut args, "-dynamic-linker");
    push_path(&mut args, &files.dynamic_linker);
    push_path(&mut args, &files.crt1);
    push_path(&mut args, &files.crti);
    push_path(&mut args, &files.crtbegin);
    let ghost head = name_views(args@);
    let ghost all = name_views(inputs@);
    let mut n: usize = 0;
    assert(name_views(args@) =~= head + all.take(0));
    while n < inputs.len()
        invariant
            n <= inputs.len(),
            all == name_views(inputs@),
            name_views(args@) == head + all.take(n as int),
        decreases inputs.len() - n,
    {
        push_path(&mut args, &inputs[n]);
        n += 1;
        assert(name_views(args@) =~= head + all.take(n as int));
    }
    assert(all.take(all.len() as int) =~= all);
    push_path(&mut args, &files.libc);
    push_path(&mut args, &files.libgcc);
    push_word(&mut args, "--as-needed");
    push_path(&mut args, &files.libgcc_s);
    push_word(&mut args, "--no-as-needed");
    push_path(&mut args, &files.crtend);
    push_path(&mut args, &files.crtn);
    assert(name_views(args@) =~= link_args(output@, all, *files));
    args
}

/// The larger of two exit codes, where none is the smallest.
pub open spec fn higher_code(a: Option<u8>, b: Option<u8>) -> Option<u8> {
    match (a, b) {
        (Some(a), Some(b)) => if a >= b {
            Some(a)
        } else {
            Some(b)
        },
        (Some(a), None) => Some(a),
        (None, b) => b,
    }
}

/// The exit code to keep after a subprocess failed with the given one.
pub open spec fn code_after(
    highest: Option<u8>,
    pass_exit_codes: bool,
    overwrite: bool,
    code: Option<i32>,
) -> Option<u8> {
    let failed = match code {
        Some(code) => Some((code % 256) as u8),
        None => None,
    };
    let kept = if overwrite {
        None
    } else {
        highest
    };
    if pass_exit_codes || overwrite {
        higher_code(kept, failed)
    } else {
        kept
    }
}

/// Where exit codes are passed on, the one that is kept never falls below one
/// that was kept before or came in, unless it is to be overwritten.
pub proof fn kept_exit_code_is_the_highest(highest: Option<u8>, code: i32)
    requires
        0 <= code < 256,
    ensures
        code_after(highest, true, false, Some(code)) is Some,
        code_after(highest, true, false, Some(code)).unwrap() >= code,
        highest is Some ==> code_after(
            highest,
            true,
            false,
            Some(code),
        ).unwrap() >= highest.unwrap(),
        code_after(highest, true, true, Some(code)) == Some(code as u8),
{
}

/// The chacc compiler driver.
#[derive(Debug)]
pub struct Driver {
    pub cli: Cli,
    pub highest_exit_code: Option<u8>,
}

impl Driver {
    /// Construct a driver from the CLI options.
    pub fn new(cli: Cli) -> (r: Driver)
        ensures
            r.cli == cli,
            r.highest_exit_code is None,
    {
        Driver { cli, highest_exit_code: None }
    }

    /// Return whether the driver runs in cc1 mode.
    pub fn cc1(&self) -> (r: bool)
        ensures
            r == self.cli.cc1,
    {
        self.cli.cc1
    }

    /// Return the highest exit code recorded.
    pub fn code(&self) -> (r: Option<u8>)
        ensures
            r == self.highest_exit_code,
    {
        self.highest_exit_code
    }

    /// Record the end of a subprocess, and return whether to go on.
    pub fn record(
        &mut self,
        success: bool,
        code: Option<i32>,
        overwrite_exit_code: bool,
    ) -> (r: bool)
        ensures
            r == success,
            final(self).cli == old(self).cli,
            final(self).highest_exit_code == (if success {
                old(self).highest_exit_code
            } else {
                code_after(
                    old(self).highest_exit_code,
                    old(self).cli.pass_exit_codes,
                    overwrite_exit_code,
                    code,
                )
            }),
    {
        if success {
            return true;
        }
        if overwrite_exit_code {
            self.highest_exit_code = None;
        }
        if self.cli.pass_exit_codes || overwrite_exit_code {
            let failed: Option<u8> = match code {
                Some(code) => {
                    let wide: i64 = code as i64;
                    let low: i64 = if wide >= 0 {
                        wide % 256
                    } else {
                        (wide + 0x8000_0000) % 256
                    };
                    assert(low == (code as int) % 256);
                    Some(low as u8)
                },
                None => None,
            };
            self.highest_exit_code = match (self.highest_exit_code, failed) {
                (Some(a), Some(b)) => if a >= b {
                    Some(a)
                } else {
                    Some(b)
                },
                (Some(a), None) => Some(a),
                (None, b) => b,
            };
        }
        false
    }
}

} // verus!
