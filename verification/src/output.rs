//! What the driver does to the world: the lines it prints and the files it writes.
use vstd::prelude::*;
use vstd::string::*;

use crate::settings::Settings;
use crate::text::around;

verus! {

/// A file in the output directory. The platform's rule for paths joins the two.
#[derive(Debug, PartialEq, Eq)]
pub struct OutputFile<S> {
    pub dir: S,
    pub name: S,
}

/// What a file is to hold.
#[derive(Debug, PartialEq, Eq)]
pub enum Content<S, B> {
    Text(S),
    Bytes(B),
}

/// A module of a binary. An ewasm contract has two parts: the code of the deployer, which returns
/// the runtime as a byte string, and the runtime.
#[derive(Debug, Clone, Copy, PartialEq, Eq, Structural)]
pub enum Part {
    Main,
    Runtime,
}

/// Something to do that brings no answer.
#[derive(Debug, PartialEq, Eq)]
pub enum Effect<S, B> {
    /// Print an information line on standard error.
    Info(S),
    /// Print an information line with the path of a file in it on standard error.
    InfoFile { before: S, file: OutputFile<S>, after: S },
    /// Print a line on standard error.
    Error(S),
    /// Print a line on standard output.
    Print(S),
    /// Print the diagnostics of the file in hand.
    PrintDiagnostics,
    /// Print the control flow graph of a contract of the file in hand on standard output.
    PrintCfg(usize),
    /// Write the syntax tree of the file in hand as a graphviz graph.
    SaveDot(OutputFile<S>),
    /// Write a module of the binary in hand as LLVM IR.
    DumpLlvm(Part, OutputFile<S>),
    /// Write a module of the binary in hand as LLVM bitcode.
    SaveBitcode(Part, OutputFile<S>),
    /// Write a file.
    Save(OutputFile<S>, Content<S, B>),
    /// Keep the file in hand for what is done with all files together.
    Keep,
    /// Print the JSON result on standard output.
    PrintJson,
    /// Generate the documentation of the files kept, in this directory.
    GenerateDocs(S),
}

/// An effect as the driver makes it.
pub type DriverEffect = Effect<String, Vec<u8>>;

/// The contents of an effect.
pub type EffectView = Effect<Seq<char>, Seq<u8>>;

impl View for OutputFile<String> {
    type V = OutputFile<Seq<char>>;

    open spec fn view(&self) -> OutputFile<Seq<char>> {
        OutputFile { dir: self.dir@, name: self.name@ }
    }
}

impl View for Content<String, Vec<u8>> {
    type V = Content<Seq<char>, Seq<u8>>;

    open spec fn view(&self) -> Content<Seq<char>, Seq<u8>> {
        match self {
            Content::Text(s) => Content::Text(s@),
            Content::Bytes(b) => Content::Bytes(b@),
        }
    }
}

impl View for Effect<String, Vec<u8>> {
    type V = Effect<Seq<char>, Seq<u8>>;

    open spec fn view(&self) -> Effect<Seq<char>, Seq<u8>> {
        match self {
            Effect::Info(line) => Effect::Info(line@),
            Effect::InfoFile { before, file, after } => Effect::InfoFile {
                before: before@,
                file: file@,
                after: after@,
            },
            Effect::Error(line) => Effect::Error(line@),
            Effect::Print(line) => Effect::Print(line@),
            Effect::PrintDiagnostics => Effect::PrintDiagnostics,
            Effect::PrintCfg(contract) => Effect::PrintCfg(*contract),
            Effect::SaveDot(file) => Effect::SaveDot(file@),
            Effect::DumpLlvm(part, file) => Effect::DumpLlvm(*part, file@),
            Effect::SaveBitcode(part, file) => Effect::SaveBitcode(*part, file@),
            Effect::Save(file, content) => Effect::Save(file@, content@),
            Effect::Keep => Effect::Keep,
            Effect::PrintJson => Effect::PrintJson,
            Effect::GenerateDocs(dir) => Effect::GenerateDocs(dir@),
        }
    }
}

/// The contents of a list of effects.
pub open spec fn views(effects: Seq<DriverEffect>) -> Seq<EffectView> {
    effects.map_values(|e: DriverEffect| e@)
}

/// Adding an effect to a list adds its contents.
pub broadcast proof fn views_push(effects: Seq<DriverEffect>, effect: DriverEffect)
    ensures
        #[trigger] views(effects.push(effect)) == views(effects).push(effect@),
{
    assert(views(effects.push(effect)) =~= views(effects).push(effect@));
}

/// An empty list has no contents.
pub broadcast proof fn views_empty(effects: Seq<DriverEffect>)
    ensures
        effects.len() == 0 ==> #[trigger] views(effects) == Seq::<EffectView>::empty(),
{
    if effects.len() == 0 {
        assert(views(effects) =~= Seq::<EffectView>::empty());
    }
}

/// The directory that files are written to: the current one where none was given.
pub open spec fn output_dir(s: Settings) -> Seq<char> {
    match s.output {
        Some(dir) => dir@,
        None => "."@,
    }
}

/// The file in the output directory with the given stem and extension.
pub open spec fn file_named(s: Settings, stem: Seq<char>, extension: Seq<char>) -> OutputFile<
    Seq<char>,
> {
    OutputFile { dir: output_dir(s), name: stem + "."@ + extension }
}

/// The directory that files are written to.
pub fn output_directory(s: &Settings) -> (r: String)
    ensures
        r@ == output_dir(*s),
        r@ == match s.output {
            Some(dir) => dir@,
            None => "."@,
        },
{
    match &s.output {
        Some(dir) => dir.clone(),
        None => ".".to_owned(),
    }
}

/// The file in the output directory with the given stem and extension.
pub fn output_file(s: &Settings, stem: &str, extension: &str) -> (r: OutputFile<String>)
    ensures
        r@ == file_named(*s, stem@, extension@),
        r.name@ == stem@ + "."@ + extension@,
        r.dir@ == match s.output {
            Some(dir) => dir@,
            None => "."@,
        },
{
    OutputFile { dir: output_directory(s), name: around(stem, ".", extension) }
}

impl OutputFile<String> {
    /// The same file once more.
    pub fn copy(&self) -> (r: Self)
        ensures
            r@ == self@,
            r.dir@ == self.dir@,
            r.name@ == self.name@,
    {
        OutputFile { dir: self.dir.clone(), name: self.name.clone() }
    }
}

/// What is said, where the run is verbose, of an artifact about to be written.
pub open spec fn saving(
    s: Settings,
    artifact: Seq<char>,
    file: OutputFile<Seq<char>>,
    contract: Seq<char>,
) -> Seq<EffectView> {
    if s.verbose {
        seq![
            Effect::InfoFile {
                before: "info: Saving "@ + artifact + " "@,
                file,
                after: " for contract "@ + contract,
            },
        ]
    } else {
        Seq::empty()
    }
}

/// Says, where the run is verbose, that an artifact is about to be written.
pub fn say_saving(
    effects: &mut Vec<DriverEffect>,
    s: &Settings,
    artifact: &str,
    file: &OutputFile<String>,
    contract: &str,
)
    ensures
        views(final(effects)@) == views(old(effects)@) + saving(
            *s,
            artifact@,
            file@,
            contract@,
        ),
        !s.verbose ==> final(effects)@ == old(effects)@,
        s.verbose ==> {
            &&& final(effects)@.len() == old(effects)@.len() + 1
            &&& final(effects)@.drop_last() == old(effects)@
            &&& match final(effects)@.last() {
                Effect::InfoFile { before, file: shown, after } => {
                    &&& before@ == "info: Saving "@ + artifact@ + " "@
                    &&& shown.dir@ == file.dir@
                    &&& shown.name@ == file.name@
                    &&& after@ == " for contract "@ + contract@
                },
                _ => false,
            }
        },
{
    broadcast use views_push;

    if s.verbose {
        effects.push(
            Effect::InfoFile {
                before: around("info: Saving ", artifact, " "),
                file: file.copy(),
                after: " for contract ".to_owned().concat(contract),
            },
        );
    }
    assert(views(effects@) =~= views(old(effects)@) + saving(*s, artifact@, file@, contract@));
}

/// The line of an `InfoFile` effect, with the path of its file as it is displayed.
pub fn file_line(before: &str, path: &str, after: &str) -> (r: String)
    ensures
        r@ == before@ + path@ + after@,
{
    around(before, path, after)
}

/// The line that a verbose run begins with.
pub fn version_line(version: &str) -> (r: String)
    ensures
        r@ == "info: Solang version "@ + version@,
{
    "info: Solang version ".to_owned().concat(version)
}

/// The end of a run on something that went wrong: the line is printed on standard error, nothing
/// else is done any more, and the program exits with the code.
#[derive(Debug, PartialEq, Eq)]
pub struct Failure<S> {
    pub line: S,
    pub code: i32,
}

impl View for Failure<String> {
    type V = Failure<Seq<char>>;

    open spec fn view(&self) -> Failure<Seq<char>> {
        Failure { line: self.line@, code: self.code }
    }
}

/// How something that was tried turned out: well, or with an error that reads like this.
pub open spec fn outcome_view(outcome: Result<(), String>) -> Result<(), Seq<char>> {
    match outcome {
        Ok(_) => Ok(()),
        Err(error) => Err(error@),
    }
}

/// One thing to do to open a file for writing.
#[derive(Debug, PartialEq, Eq)]
pub enum CreateStep<S> {
    /// Make a directory and those above it.
    MakeDirectory(S),
    /// Create the file.
    Create(S),
}

impl View for CreateStep<String> {
    type V = CreateStep<Seq<char>>;

    open spec fn view(&self) -> CreateStep<Seq<char>> {
        match self {
            CreateStep::MakeDirectory(path) => CreateStep::MakeDirectory(path@),
            CreateStep::Create(path) => CreateStep::Create(path@),
        }
    }
}

/// What comes next when a file is opened for writing.
#[derive(Debug, PartialEq, Eq)]
pub enum CreateNext<S> {
    /// This is to be done.
    Then(CreateStep<S>),
    /// Nothing: the file is open.
    Opened,
    /// The run ends.
    Fail(Failure<S>),
}

impl View for CreateNext<String> {
    type V = CreateNext<Seq<char>>;

    open spec fn view(&self) -> CreateNext<Seq<char>> {
        match self {
            CreateNext::Then(step) => CreateNext::Then(step@),
            CreateNext::Opened => CreateNext::Opened,
            CreateNext::Fail(failure) => CreateNext::Fail(failure@),
        }
    }
}

/// The first thing to do to open a file: its directory is made, where it has one.
pub open spec fn first_create_step(path: Seq<char>, parent: Option<Seq<char>>) -> CreateStep<
    Seq<char>,
> {
    match parent {
        Some(dir) => CreateStep::MakeDirectory(dir),
        None => CreateStep::Create(path),
    }
}

/// Begins to open a file for writing. `path` and `parent` are how the file and its directory are
/// displayed.
pub fn create_file(path: &str, parent: Option<&str>) -> (r: CreateStep<String>)
    ensures
        r@ == first_create_step(
            path@,
            match parent {
                Some(dir) => Some(dir@),
                None => None,
            },
        ),
        match (parent, r) {
            (Some(dir), CreateStep::MakeDirectory(made)) => made@ == dir@,
            (None, CreateStep::Create(created)) => created@ == path@,
            _ => false,
        },
{
    match parent {
        Some(dir) => CreateStep::MakeDirectory(dir.to_owned()),
        None => CreateStep::Create(path.to_owned()),
    }
}

/// The line that ends the run where a step fails.
pub open spec fn create_failure_line(step: CreateStep<Seq<char>>, error: Seq<char>) -> Seq<char> {
    match step {
        CreateStep::MakeDirectory(path) => "error: cannot create output directory ‘"@ + path
            + "’: "@ + error,
        CreateStep::Create(path) => "error: cannot create file ‘"@ + path + "’: "@ + error,
    }
}

/// What follows a step. A step that fails ends the run; otherwise the file is created once its
/// directory is there, and is open once it has been created.
pub open spec fn create_next(
    step: CreateStep<Seq<char>>,
    path: Seq<char>,
    outcome: Result<(), Seq<char>>,
) -> CreateNext<Seq<char>> {
    match outcome {
        Err(error) => CreateNext::Fail(
            Failure { line: create_failure_line(step, error), code: 1 },
        ),
        Ok(_) => match step {
            CreateStep::MakeDirectory(_) => CreateNext::Then(CreateStep::Create(path)),
            CreateStep::Create(_) => CreateNext::Opened,
        },
    }
}

/// Decides what follows a step, when it has been tried.
pub fn after_create(step: &CreateStep<String>, path: &str, outcome: Result<(), String>) -> (r:
    CreateNext<String>)
    ensures
        r@ == create_next(step@, path@, outcome_view(outcome)),
        match (outcome, *step, r) {
            (Ok(_), CreateStep::MakeDirectory(_), CreateNext::Then(CreateStep::Create(file))) => {
                file@ == path@
            },
            (Ok(_), CreateStep::Create(_), CreateNext::Opened) => true,
            (Err(error), CreateStep::MakeDirectory(dir), CreateNext::Fail(failure)) => {
                &&& failure.code == 1
                &&& failure.line@ == "error: cannot create output directory ‘"@ + dir@ + "’: "@
                    + error@
            },
            (Err(error), CreateStep::Create(file), CreateNext::Fail(failure)) => {
                &&& failure.code == 1
                &&& failure.line@ == "error: cannot create file ‘"@ + file@ + "’: "@ + error@
            },
            _ => false,
        },
{
    match outcome {
        Err(error) => {
            let line = match step {
                CreateStep::MakeDirectory(dir) => around(
                    "error: cannot create output directory ‘",
                    dir.as_str(),
                    "’: ",
                ).concat(error.as_str()),
                CreateStep::Create(file) => around(
                    "error: cannot create file ‘",
                    file.as_str(),
                    "’: ",
                ).concat(error.as_str()),
            };
            CreateNext::Fail(Failure { line, code: 1 })
        },
        Ok(_) => match step {
            CreateStep::MakeDirectory(_) => CreateNext::Then(CreateStep::Create(path.to_owned())),
            CreateStep::Create(_) => CreateNext::Opened,
        },
    }
}

/// How the opening of a file went: the steps that were tried, in order, and how it ended.
#[verifier::ext_equal]
pub struct Creation {
    pub tried: Seq<CreateStep<Seq<char>>>,
    pub end: CreateNext<Seq<char>>,
}

/// The opening of a file from the given step on, where each step would turn out like this.
pub open spec fn create_from(
    step: CreateStep<Seq<char>>,
    path: Seq<char>,
    outcomes: spec_fn(CreateStep<Seq<char>>) -> Result<(), Seq<char>>,
) -> Creation
    decreases
            if step is MakeDirectory {
                1nat
            } else {
                0nat
            },
{
    match create_next(step, path, outcomes(step)) {
        CreateNext::Then(next) => {
            let rest = create_from(next, path, outcomes);
            Creation { tried: seq![step] + rest.tried, ..rest }
        },
        end => Creation { tried: seq![step], end },
    }
}

/// A file with a directory is opened by making the directory and then creating the file, and one
/// without by creating it. Where the directory cannot be made, the run ends with 1 and the file is
/// not tried; where the file cannot be created, the run ends with 1.
pub proof fn creation_stops_at_failure(
    path: Seq<char>,
    parent: Option<Seq<char>>,
    outcomes: spec_fn(CreateStep<Seq<char>>) -> Result<(), Seq<char>>,
)
    ensures
        ({
            let whole = create_from(first_create_step(path, parent), path, outcomes);
            let create = CreateStep::Create(path);
            let created = match outcomes(create) {
                Ok(_) => CreateNext::Opened,
                Err(error) => CreateNext::Fail(
                    Failure {
                        line: "error: cannot create file ‘"@ + path + "’: "@ + error,
                        code: 1,
                    },
                ),
            };
            match parent {
                None => whole == (Creation { tried: seq![create], end: created }),
                Some(dir) => {
                    let make = CreateStep::MakeDirectory(dir);
                    match outcomes(make) {
                        Ok(_) => whole == (Creation { tried: seq![make, create], end: created }),
                        Err(error) => whole == (Creation {
                            tried: seq![make],
                            end: CreateNext::Fail(
                                Failure {
                                    line: "error: cannot create output directory ‘"@ + dir
                                        + "’: "@ + error,
                                    code: 1,
                                },
                            ),
                        }),
                    }
                },
            }
        }),
{
    reveal_with_fuel(create_from, 2);
    let create = CreateStep::Create(path);
    let tail = create_from(create, path, outcomes);
    assert(tail.tried == seq![create]);
    if let Some(dir) = parent {
        let make = CreateStep::MakeDirectory(dir);
        assert(seq![make] + seq![create] =~= seq![make, create]);
    }
}

/// How the run ends where the graph of a syntax tree cannot be written to its file. Where it can,
/// the run goes on.
pub open spec fn dot_failure(path: Seq<char>, outcome: Result<(), Seq<char>>) -> Option<
    Failure<Seq<char>>,
> {
    match outcome {
        Ok(_) => None,
        Err(error) => Some(Failure { line: path + ": error: "@ + error, code: 1 }),
    }
}

/// Decides what follows the writing of the graph of a syntax tree: nothing, or the end of the run.
pub fn after_dot(path: &str, outcome: Result<(), String>) -> (r: Option<Failure<String>>)
    ensures
        match r {
            Some(failure) => dot_failure(path@, outcome_view(outcome)) == Some(failure@),
            None => dot_failure(path@, outcome_view(outcome)) is None,
        },
        match (outcome, r) {
            (Ok(_), None) => true,
            (Err(error), Some(failure)) => {
                &&& failure.code == 1
                &&& failure.line@ == path@ + ": error: "@ + error@
            },
            _ => false,
        },
{
    match outcome {
        Ok(_) => None,
        Err(error) => Some(Failure { line: around(path, ": error: ", error.as_str()), code: 1 }),
    }
}

/// The name of an output file is the stem, a dot and the extension, and it lies in the directory
/// given or, where none was, in the current one.
pub proof fn output_files_are_named_by_stem_and_extension(
    s: Settings,
    stem: Seq<char>,
    extension: Seq<char>,
)
    ensures
        file_named(s, stem, extension).name == stem + "."@ + extension,
        s.output matches Some(dir) ==> file_named(s, stem, extension).dir == dir@,
        s.output is None ==> file_named(s, stem, extension).dir == "."@,
{
}

/// Files with the same stem and different extensions are different files: the binary and the ABI of
/// a contract never share one. So are files with different stems and the same extension.
pub proof fn output_files_do_not_collide(
    s: Settings,
    stem: Seq<char>,
    other: Seq<char>,
    extension: Seq<char>,
    different: Seq<char>,
)
    ensures
        extension != different ==> file_named(s, stem, extension) != file_named(
            s,
            stem,
            different,
        ),
        stem != other ==> file_named(s, stem, extension) != file_named(s, other, extension),
{
    let a = stem + "."@ + extension;
    if extension != different && a == stem + "."@ + different {
        let b = stem + "."@ + different;
        let n = stem.len() + "."@.len();
        assert(a.skip(n as int) =~= extension);
        assert(b.skip(n as int) =~= different);
    }
    if stem != other && a == other + "."@ + extension {
        let b = other + "."@ + extension;
        assert(a.len() == stem.len() + "."@.len() + extension.len());
        assert(b.len() == other.len() + "."@.len() + extension.len());
        assert(a.take(stem.len() as int) =~= stem);
        assert(b.take(stem.len() as int) =~= other);
    }
}

/// An effect is what its contents say: of the same kind, with the same texts, bytes and numbers.
pub proof fn effects_are_their_contents(effect: DriverEffect)
    ensures
        match (effect, effect@) {
            (Effect::Info(a), Effect::Info(b)) => a@ == b,
            (
                Effect::InfoFile { before, file, after },
                Effect::InfoFile { before: b, file: f, after: a },
            ) => before@ == b && file.dir@ == f.dir && file.name@ == f.name && after@ == a,
            (Effect::Error(a), Effect::Error(b)) => a@ == b,
            (Effect::Print(a), Effect::Print(b)) => a@ == b,
            (Effect::PrintDiagnostics, Effect::PrintDiagnostics) => true,
            (Effect::PrintCfg(a), Effect::PrintCfg(b)) => a == b,
            (Effect::SaveDot(a), Effect::SaveDot(b)) => a.dir@ == b.dir && a.name@ == b.name,
            (Effect::DumpLlvm(p, a), Effect::DumpLlvm(q, b)) => p == q && a.dir@ == b.dir
                && a.name@ == b.name,
            (Effect::SaveBitcode(p, a), Effect::SaveBitcode(q, b)) => p == q && a.dir@ == b.dir
                && a.name@ == b.name,
            (Effect::Save(a, Content::Text(c)), Effect::Save(b, Content::Text(d))) => a.dir@
                == b.dir && a.name@ == b.name && c@ == d,
            (Effect::Save(a, Content::Bytes(c)), Effect::Save(b, Content::Bytes(d))) => a.dir@
                == b.dir && a.name@ == b.name && c@ == d,
            (Effect::Keep, Effect::Keep) => true,
            (Effect::PrintJson, Effect::PrintJson) => true,
            (Effect::GenerateDocs(a), Effect::GenerateDocs(b)) => a@ == b,
            _ => false,
        },
{
}

/// The contents of a list of effects are those of each, in order.
pub proof fn effects_are_seen_one_by_one(effects: Seq<DriverEffect>)
    ensures
        views(effects).len() == effects.len(),
        forall|i: int| 0 <= i < effects.len() ==> #[trigger] views(effects)[i] == effects[i]@,
{
}

} // verus!
