//! The command line of one run: which arguments are the exporter's own, which
//! are handed on to the build tool, and what the run is to do.

use crate::text::same_text;
use vstd::prelude::*;
use vstd::string::StringExecFns;

verus! {

/// The arguments of a run, parted at the first `--`.
#[derive(Clone, Debug, PartialEq, Eq)]
pub struct CommandLine {
    /// The exporter's own arguments: what stands before the first `--`.
    pub own: Vec<String>,
    /// The build tool's arguments: what stands behind the first `--`.
    pub cargo: Vec<String>,
}

/// The arguments that count: all but the program's name, which comes first,
/// and the word `export` where it comes second.
pub open spec fn spec_given_arguments(args: Seq<Seq<char>>) -> Seq<Seq<char>> {
    if args.len() >= 2 && args[1] == "export"@ {
        args.skip(2)
    } else if args.len() >= 1 {
        args.skip(1)
    } else {
        args
    }
}

/// Whether `own` and `cargo` are the two sides of the first `--` in `given`,
/// or `own` is all of `given` where it holds no `--`.
pub open spec fn parted_at_separator(
    given: Seq<Seq<char>>,
    own: Seq<Seq<char>>,
    cargo: Seq<Seq<char>>,
) -> bool {
    &&& !own.contains("--"@)
    &&& if given.contains("--"@) {
        given == own + seq!["--"@] + cargo
    } else {
        own == given && cargo.len() == 0
    }
}

/// Parts the arguments of the process into the exporter's own and the build
/// tool's. The program's name and a leading `export` are left out, and so is
/// the `--` between the two sides.
pub fn split_command_line(args: &Vec<String>) -> (line: CommandLine)
    ensures
        parted_at_separator(
            spec_given_arguments(args.deep_view()),
            line.own.deep_view(),
            line.cargo.deep_view(),
        ),
{
    let n: usize = args.len();
    let mut start: usize = 0;
    if n > 0 {
        start = 1;
        if n > 1 && same_text(args[1].as_str(), "export") {
            start = 2;
        }
    }
    let ghost given = spec_given_arguments(args.deep_view());
    assert(given == args.deep_view().skip(start as int));
    let mut own: Vec<String> = Vec::new();
    let mut i: usize = start;
    while i < n && !same_text(args[i].as_str(), "--")
        invariant
            start <= i <= n == args.len(),
            given == args.deep_view().skip(start as int),
            own.deep_view() == given.take(i - start),
            !own.deep_view().contains("--"@),
        decreases n - i,
    {
        let ghost before = own.deep_view();
        own.push(args[i].clone());
        proof {
            assert(own.deep_view() == before.push(args[i as int]@));
            assert(given.take(i + 1 - start) == before.push(given[i - start]));
        }
        i = i + 1;
    }
    let mut cargo: Vec<String> = Vec::new();
    if i == n {
        assert(given.take(n - start) == given);
        return CommandLine { own, cargo };
    }
    let from: usize = i + 1;
    let mut j: usize = from;
    while j < n
        invariant
            start <= from <= j <= n == args.len(),
            given == args.deep_view().skip(start as int),
            cargo.deep_view() == given.subrange(from - start, j - start),
        decreases n - j,
    {
        let ghost before = cargo.deep_view();
        cargo.push(args[j].clone());
        proof {
            assert(cargo.deep_view() == before.push(args[j as int]@));
            assert(given.subrange(from - start, j + 1 - start) == before.push(given[j - start]));
        }
        j = j + 1;
    }
    proof {
        assert(given[i - start] == "--"@);
        assert(given == own.deep_view() + seq!["--"@] + cargo.deep_view());
    }
    CommandLine { own, cargo }
}

/// The arguments with which the build tool is run. With the default options,
/// `--message-format=json` follows the build tool's subcommand, and `--no-run`
/// follows that where the subcommand is `bench` or `test`; the other arguments
/// come behind, in their order. Without them the arguments stay as they are.
pub open spec fn spec_cargo_arguments(cargo: Seq<Seq<char>>, default_options: bool) -> Seq<
    Seq<char>,
>
    recommends
        cargo.len() > 0,
{
    if !default_options {
        cargo
    } else if cargo[0] == "bench"@ || cargo[0] == "test"@ {
        seq![cargo[0], "--message-format=json"@, "--no-run"@] + cargo.skip(1)
    } else {
        seq![cargo[0], "--message-format=json"@] + cargo.skip(1)
    }
}

/// Puts the default options among the build tool's arguments, right behind
/// its subcommand.
pub fn cargo_arguments(cargo: &Vec<String>, default_options: bool) -> (all: Vec<String>)
    requires
        cargo.len() > 0,
    ensures
        all.deep_view() == spec_cargo_arguments(cargo.deep_view(), default_options),
{
    let mut all: Vec<String> = Vec::new();
    all.push(cargo[0].clone());
    if default_options {
        all.push(String::from_str("--message-format=json"));
        if same_text(cargo[0].as_str(), "bench") || same_text(cargo[0].as_str(), "test") {
            all.push(String::from_str("--no-run"));
        }
    }
    let ghost head = all.deep_view();
    assert(head == spec_cargo_arguments(cargo.deep_view(), default_options).take(
        head.len() as int,
    ));
    let mut i: usize = 1;
    while i < cargo.len()
        invariant
            1 <= i <= cargo.len(),
            all.deep_view() == head + cargo.deep_view().subrange(1, i as int),
        decreases cargo.len() - i,
    {
        let ghost before = all.deep_view();
        all.push(cargo[i].clone());
        proof {
            assert(all.deep_view() == before.push(cargo[i as int]@));
            assert(cargo.deep_view().subrange(1, i + 1) == cargo.deep_view().subrange(
                1,
                i as int,
            ).push(cargo[i as int]@));
        }
        i = i + 1;
    }
    assert(cargo.deep_view().subrange(1, i as int) == cargo.deep_view().skip(1));
    all
}

/// What the option parser found among the exporter's own arguments.
#[derive(Clone, Debug, PartialEq, Eq)]
pub struct ParsedOptions {
    /// The value of `--tag`.
    pub tag: Option<String>,
    /// Whether `--no-default-options` was given.
    pub no_default_options: bool,
    /// Whether `--verbose` was given.
    pub verbose: bool,
    /// Whether `--dry-run` was given.
    pub dry_run: bool,
    /// Whether `--help` was given.
    pub help: bool,
    /// Whether `--version` was given.
    pub version: bool,
    /// The arguments that are no options, in their order.
    pub free: Vec<String>,
}

/// An argument that a run cannot do without.
#[derive(Clone, Copy, Debug, PartialEq, Eq)]
pub enum MissingOperand {
    /// The directory to export to.
    Path,
    /// The build tool's subcommand, behind `--`.
    CargoCommand,
}

impl MissingOperand {
    /// The name under which the usage text lists the operand.
    pub fn name(self) -> (name: String)
        ensures
            name@ == match self {
                MissingOperand::Path => "PATH"@,
                MissingOperand::CargoCommand => "CARGO_COMMAND"@,
            },
    {
        match self {
            MissingOperand::Path => String::from_str("PATH"),
            MissingOperand::CargoCommand => String::from_str("CARGO_COMMAND"),
        }
    }
}

/// An export that is ready to run.
#[derive(Clone, Debug, PartialEq, Eq)]
pub struct Export {
    /// The directory that the artifacts are copied to.
    pub target: String,
    /// The arguments with which the build tool is run.
    pub cargo_args: Vec<String>,
    /// The tag that goes into each exported name.
    pub tag: Option<String>,
    /// Whether each copy is reported.
    pub verbose: bool,
    /// Whether the copies are only reported, and not made.
    pub dry_run: bool,
}

/// An export as plain values.
pub struct ExportView {
    /// The characters of the directory.
    pub target: Seq<char>,
    /// The build tool's arguments, each as its characters.
    pub cargo_args: Seq<Seq<char>>,
    /// The characters of the tag, where there is one.
    pub tag: Option<Seq<char>>,
    /// Whether each copy is reported.
    pub verbose: bool,
    /// Whether the copies are only reported, and not made.
    pub dry_run: bool,
}

impl View for Export {
    type V = ExportView;

    open spec fn view(&self) -> ExportView {
        ExportView {
            target: self.target@,
            cargo_args: self.cargo_args.deep_view(),
            tag: match self.tag {
                Some(t) => Some(t@),
                None => None,
            },
            verbose: self.verbose,
            dry_run: self.dry_run,
        }
    }
}

/// What a run is to do.
#[derive(Clone, Debug, PartialEq, Eq)]
pub enum Action {
    /// Show how the exporter is used.
    Help,
    /// Show the exporter's version.
    Version,
    /// Build and export.
    Export(Export),
}

/// The export that the options and the build tool's arguments ask for: to the
/// first free argument, with the default options unless they are switched off,
/// and reporting each copy where that or a dry run is asked for.
pub open spec fn spec_export(options: ParsedOptions, cargo: Seq<Seq<char>>) -> ExportView
    recommends
        options.free.len() > 0,
        cargo.len() > 0,
{
    ExportView {
        target: options.free[0]@,
        cargo_args: spec_cargo_arguments(cargo, !options.no_default_options),
        tag: match options.tag {
            Some(t) => Some(t@),
            None => None,
        },
        verbose: options.verbose || options.dry_run,
        dry_run: options.dry_run,
    }
}

/// Decides what a run is to do. A request for help comes first and one for
/// the version second, whatever else is given. An export needs a directory
/// among the free arguments and a subcommand for the build tool; the
/// directory is looked for first.
pub fn plan(options: &ParsedOptions, cargo: &Vec<String>) -> (action: Result<
    Action,
    MissingOperand,
>)
    ensures
        options.help ==> action matches Ok(Action::Help),
        !options.help && options.version ==> action matches Ok(Action::Version),
        !options.help && !options.version && options.free.len() == 0 ==> action matches Err(
            MissingOperand::Path,
        ),
        !options.help && !options.version && options.free.len() > 0 && cargo.len() == 0
            ==> action matches Err(MissingOperand::CargoCommand),
        !options.help && !options.version && options.free.len() > 0 && cargo.len() > 0 ==> (
        action matches Ok(Action::Export(export)) && export@ == spec_export(
            *options,
            cargo.deep_view(),
        )),
{
    if options.help {
        return Ok(Action::Help);
    }
    if options.version {
        return Ok(Action::Version);
    }
    if options.free.len() == 0 {
        return Err(MissingOperand::Path);
    }
    if cargo.len() == 0 {
        return Err(MissingOperand::CargoCommand);
    }
    let tag = match &options.tag {
        Some(t) => Some(t.clone()),
        None => None,
    };
    Ok(
        Action::Export(
            Export {
                target: options.free[0].clone(),
                cargo_args: cargo_arguments(cargo, !options.no_default_options),
                tag,
                verbose: options.verbose || options.dry_run,
                dry_run: options.dry_run,
            },
        ),
    )
}

/// Two ways of parting the same arguments are the same: the contract of
/// [`split_command_line`] leaves no choice.
pub proof fn lemma_parted_once(
    given: Seq<Seq<char>>,
    own: Seq<Seq<char>>,
    cargo: Seq<Seq<char>>,
    own2: Seq<Seq<char>>,
    cargo2: Seq<Seq<char>>,
)
    requires
        parted_at_separator(given, own, cargo),
        parted_at_separator(given, own2, cargo2),
    ensures
        own == own2,
        cargo == cargo2,
{
    if given.contains("--"@) {
        assert(given[own.len() as int] == "--"@);
        assert(given[own2.len() as int] == "--"@);
        if own.len() < own2.len() {
            assert(own2[own.len() as int] == "--"@);
        }
        if own2.len() < own.len() {
            assert(own[own2.len() as int] == "--"@);
        }
        assert(own == given.take(own.len() as int));
        assert(own2 == given.take(own.len() as int));
        assert(cargo == given.skip(own.len() as int + 1));
        assert(cargo2 == given.skip(own.len() as int + 1));
    }
}

} // verus!
