//! Where imported files are looked for.
use vstd::prelude::*;
use vstd::string::*;

use crate::output::{outcome_view, Failure};
use crate::text::{around, texts};

verus! {

/// One thing to do to the import resolver, or the refusal of an import map.
#[derive(Debug, PartialEq, Eq)]
pub enum ImportStep<S> {
    /// Search the directory of the input of this number, where it can be found.
    InputDirectory(usize),
    /// Search the current directory.
    CurrentDirectory,
    /// Search the import path of this number.
    Path(usize),
    /// Search the path for what is imported from under the map.
    MapTo { map: S, path: S },
    /// An import map without `=`.
    BadMap(S),
}

impl View for ImportStep<String> {
    type V = ImportStep<Seq<char>>;

    open spec fn view(&self) -> ImportStep<Seq<char>> {
        match self {
            ImportStep::InputDirectory(i) => ImportStep::InputDirectory(*i),
            ImportStep::CurrentDirectory => ImportStep::CurrentDirectory,
            ImportStep::Path(i) => ImportStep::Path(*i),
            ImportStep::MapTo { map, path } => ImportStep::MapTo { map: map@, path: path@ },
            ImportStep::BadMap(argument) => ImportStep::BadMap(argument@),
        }
    }
}

/// What stands before and after the first `=`.
pub open spec fn map_parts(argument: Seq<char>) -> Option<(Seq<char>, Seq<char>)> {
    match argument.index_of_first('=') {
        Some(i) => Some((argument.take(i), argument.skip(i + 1))),
        None => None,
    }
}

/// Reads an import map of the form `map=path`.
pub fn parse_import_map(argument: &str) -> (r: Option<(String, String)>)
    ensures
        match r {
            Some((map, path)) => {
                &&& argument@ == map@ + seq!['='] + path@
                &&& !map@.contains('=')
                &&& map_parts(argument@) == Some((map@, path@))
            },
            None => !argument@.contains('=') && map_parts(argument@) is None,
        },
{
    proof {
        argument@.index_of_first_ensures('=');
        map_parts_rejoin(argument@);
    }
    let n: usize = argument.unicode_len();
    let mut i: usize = 0;
    while i < n
        invariant
            i <= n,
            n == argument@.len(),
            map_parts(argument@) matches Some((map, path)) ==> argument@ == map + seq!['='] + path
                && !map.contains('='),
            forall|j: int| 0 <= j < i ==> argument@[j] != '=',
            match argument@.index_of_first('=') {
                Some(k) => 0 <= k < n && argument@[k] == '=' && forall|j: int|
                    0 <= j < k ==> argument@[j] != '=',
                None => forall|j: int| 0 <= j < n ==> argument@[j] != '=',
            },
        decreases n - i,
    {
        if argument.get_char(i) == '=' {
            let map = argument.substring_char(0, i).to_owned();
            let path = argument.substring_char(i + 1, n).to_owned();
            assert(argument@.index_of_first('=') == Some(i as int));
            return Some((map, path));
        }
        i = i + 1;
    }
    None
}

/// The steps for the import maps: each in turn, up to and including the first that is refused.
pub open spec fn map_steps(maps: Seq<Seq<char>>) -> Seq<ImportStep<Seq<char>>>
    decreases maps.len(),
{
    if maps.len() == 0 {
        Seq::empty()
    } else {
        match map_parts(maps[0]) {
            Some((map, path)) => seq![ImportStep::MapTo { map, path }] + map_steps(
                maps.drop_first(),
            ),
            None => seq![ImportStep::BadMap(maps[0])],
        }
    }
}

/// The steps that set up the import resolver: the directories of the inputs, the current
/// directory, the import paths and then the import maps.
pub open spec fn import_steps(inputs: nat, paths: nat, maps: Seq<Seq<char>>) -> Seq<
    ImportStep<Seq<char>>,
> {
    Seq::new(inputs, |i: int| ImportStep::<Seq<char>>::InputDirectory(i as usize)) + seq![
        ImportStep::CurrentDirectory,
    ] + Seq::new(paths, |i: int| ImportStep::<Seq<char>>::Path(i as usize)) + map_steps(maps)
}

/// The contents of a list of steps.
pub open spec fn step_views(steps: Seq<ImportStep<String>>) -> Seq<ImportStep<Seq<char>>> {
    steps.map_values(|s: ImportStep<String>| s@)
}

proof fn step_views_push(steps: Seq<ImportStep<String>>, step: ImportStep<String>)
    ensures
        step_views(steps.push(step)) == step_views(steps).push(step@),
{
    assert(step_views(steps.push(step)) =~= step_views(steps).push(step@));
}

/// The import maps are set up one for one and in order, each split at its first `=`, up to and
/// including the first that has none.
proof fn map_steps_follow_maps(maps: Seq<Seq<char>>)
    ensures
        map_steps(maps).len() <= maps.len(),
        forall|k: int|
            0 <= k < map_steps(maps).len() ==> match #[trigger] map_steps(maps)[k] {
                ImportStep::MapTo { map, path } => maps[k] == map + seq!['='] + path
                    && !map.contains('='),
                ImportStep::BadMap(argument) => argument == maps[k] && !maps[k].contains('=') && k
                    == map_steps(maps).len() - 1,
                _ => false,
            },
        map_steps(maps).len() < maps.len() ==> map_steps(maps).len() > 0 && map_steps(
            maps,
        ).last() is BadMap,
    decreases maps.len(),
{
    if maps.len() > 0 {
        let rest = maps.drop_first();
        let steps = map_steps(maps);
        map_steps_follow_maps(rest);
        map_parts_rejoin(maps[0]);
        if map_parts(maps[0]) is Some {
            let tail = map_steps(rest);
            assert forall|k: int| 0 <= k < steps.len() implies match #[trigger] steps[k] {
                ImportStep::MapTo { map, path } => maps[k] == map + seq!['='] + path
                    && !map.contains('='),
                ImportStep::BadMap(argument) => argument == maps[k] && !maps[k].contains('=') && k
                    == steps.len() - 1,
                _ => false,
            } by {
                if k > 0 {
                    assert(steps[k] == tail[k - 1]);
                    assert(rest[k - 1] == maps[k]);
                }
            }
            if tail.len() > 0 {
                assert(steps.last() == tail.last());
            }
        }
    }
}

/// The directory of every input is searched, then the current directory, then every import path,
/// each once and in the order given; the import maps come last, one for one and in order, up to and
/// including the first without `=`.
pub proof fn imports_are_planned_in_order(inputs: nat, paths: nat, maps: Seq<Seq<char>>)
    requires
        inputs <= usize::MAX,
        paths <= usize::MAX,
    ensures
        ({
            let steps = import_steps(inputs, paths, maps);
            let base = inputs + 1 + paths;
            &&& base <= steps.len() <= base + maps.len()
            &&& forall|i: int|
                0 <= i < inputs ==> #[trigger] steps[i] == ImportStep::<Seq<char>>::InputDirectory(
                    i as usize,
                )
            &&& steps[inputs as int] == ImportStep::<Seq<char>>::CurrentDirectory
            &&& forall|i: int|
                inputs < i < base ==> #[trigger] steps[i] == ImportStep::<Seq<char>>::Path(
                    (i - inputs - 1) as usize,
                )
            &&& forall|i: int|
                base <= i < steps.len() ==> match #[trigger] steps[i] {
                    ImportStep::MapTo { map, path } => maps[i - base] == map + seq!['='] + path
                        && !map.contains('='),
                    ImportStep::BadMap(argument) => argument == maps[i - base] && !maps[i
                        - base].contains('=') && i == steps.len() - 1,
                    _ => false,
                }
            &&& steps.len() < base + maps.len() ==> steps.last() is BadMap
        }),
{
    map_steps_follow_maps(maps);
    let steps = import_steps(inputs, paths, maps);
    let base = inputs + 1 + paths;
    let tail = map_steps(maps);
    assert forall|i: int| base <= i < steps.len() implies #[trigger] steps[i] == tail[i - base] by {}
}

/// Plans the set-up of the import resolver.
pub fn plan_imports(inputs: usize, paths: usize, maps: &Vec<String>) -> (r: Vec<
    ImportStep<String>,
>)
    ensures
        step_views(r@) == import_steps(inputs as nat, paths as nat, texts(maps@)),
        inputs + 1 + paths <= r@.len() <= inputs + 1 + paths + maps@.len(),
        forall|i: int|
            0 <= i < inputs ==> #[trigger] r@[i] == ImportStep::<String>::InputDirectory(
                i as usize,
            ),
        r@[inputs as int] == ImportStep::<String>::CurrentDirectory,
        forall|i: int|
            inputs < i < inputs + 1 + paths ==> #[trigger] r@[i] == ImportStep::<String>::Path(
                (i - inputs - 1) as usize,
            ),
        forall|i: int|
            inputs + 1 + paths <= i < r@.len() ==> match #[trigger] r@[i] {
                ImportStep::MapTo { map, path } => maps@[i - (inputs + 1 + paths)]@ == map@
                    + seq!['='] + path@ && !map@.contains('='),
                ImportStep::BadMap(argument) => argument@ == maps@[i - (inputs + 1 + paths)]@
                    && !argument@.contains('=') && i == r@.len() - 1,
                _ => false,
            },
        r@.len() < inputs + 1 + paths + maps@.len() ==> r@.last() is BadMap,
{
    let steps = collect_steps(inputs, paths, maps);
    proof {
        imports_are_planned_in_order(inputs as nat, paths as nat, texts(maps@));
        let seen = step_views(steps@);
        assert(seen.len() == steps@.len());
        assert forall|i: int| 0 <= i < steps@.len() implies #[trigger] steps@[i]@ == seen[i] by {}
        assert forall|i: int| 0 <= i < inputs implies #[trigger] steps@[i] == ImportStep::<
            String,
        >::InputDirectory(i as usize) by {
            assert(steps@[i]@ == seen[i]);
        }
        assert(steps@[inputs as int]@ == seen[inputs as int]);
        assert forall|i: int| inputs < i < inputs + 1 + paths implies #[trigger] steps@[i]
            == ImportStep::<String>::Path((i - inputs - 1) as usize) by {
            assert(steps@[i]@ == seen[i]);
        }
        assert forall|i: int|
            inputs + 1 + paths <= i < steps@.len() implies match #[trigger] steps@[i] {
            ImportStep::MapTo { map, path } => maps@[i - (inputs + 1 + paths)]@ == map@ + seq!['=']
                + path@ && !map@.contains('='),
            ImportStep::BadMap(argument) => argument@ == maps@[i - (inputs + 1 + paths)]@
                && !argument@.contains('=') && i == steps@.len() - 1,
            _ => false,
        } by {
            assert(steps@[i]@ == seen[i]);
            assert(texts(maps@)[i - (inputs + 1 + paths)] == maps@[i - (inputs + 1 + paths)]@);
        }
        assert(steps@.last()@ == seen.last());
    }
    steps
}

/// Collects the steps that set up the import resolver.
fn collect_steps(inputs: usize, paths: usize, maps: &Vec<String>) -> (r: Vec<ImportStep<String>>)
    ensures
        step_views(r@) == import_steps(inputs as nat, paths as nat, texts(maps@)),
{
    let mut steps: Vec<ImportStep<String>> = Vec::new();
    let ghost first = Seq::new(
        inputs as nat,
        |i: int| ImportStep::<Seq<char>>::InputDirectory(i as usize),
    );
    let ghost second = Seq::new(paths as nat, |i: int| ImportStep::<Seq<char>>::Path(i as usize));
    let mut i: usize = 0;
    while i < inputs
        invariant
            i <= inputs,
            first == Seq::new(
                inputs as nat,
                |i: int| ImportStep::<Seq<char>>::InputDirectory(i as usize),
            ),
            step_views(steps@) =~= first.take(i as int),
        decreases inputs - i,
    {
        let ghost so_far = steps@;
        let step = ImportStep::InputDirectory(i);
        steps.push(step);
        proof {
            step_views_push(so_far, step);
        }
        assert(first.take(i + 1) =~= first.take(i as int).push(step@));
        i = i + 1;
    }
    let ghost so_far = steps@;
    let step = ImportStep::CurrentDirectory;
    steps.push(step);
    proof {
        step_views_push(so_far, step);
        assert(first.take(inputs as int) =~= first);
    }
    let ghost before = first + seq![ImportStep::<Seq<char>>::CurrentDirectory];
    assert(step_views(steps@) =~= before + second.take(0));
    i = 0;
    while i < paths
        invariant
            i <= paths,
            second == Seq::new(
                paths as nat,
                |i: int| ImportStep::<Seq<char>>::Path(i as usize),
            ),
            step_views(steps@) =~= before + second.take(i as int),
        decreases paths - i,
    {
        let ghost so_far = steps@;
        let step = ImportStep::Path(i);
        steps.push(step);
        proof {
            step_views_push(so_far, step);
        }
        assert(second.take(i + 1) =~= second.take(i as int).push(step@));
        i = i + 1;
    }
    assert(second.take(paths as int) =~= second);
    let ghost before = before + second;
    assert(step_views(steps@) =~= before);
    assert(texts(maps@).skip(0) =~= texts(maps@));
    i = 0;
    while i < maps.len()
        invariant
            i <= maps@.len(),
            import_steps(inputs as nat, paths as nat, texts(maps@)) == before + map_steps(
                texts(maps@),
            ),
            before + map_steps(texts(maps@)) =~= step_views(steps@) + map_steps(
                texts(maps@).skip(i as int),
            ),
        decreases maps@.len() - i,
    {
        let ghost rest = texts(maps@).skip(i as int);
        assert(rest[0] == maps@[i as int]@);
        let ghost so_far = steps@;
        match parse_import_map(maps[i].as_str()) {
            Some((map, path)) => {
                let step = ImportStep::MapTo { map, path };
                steps.push(step);
                assert(step_views(steps@) =~= step_views(so_far) + seq![step@]);
                assert(rest.drop_first() =~= texts(maps@).skip(i + 1));
            },
            None => {
                let step = ImportStep::BadMap(maps[i].clone());
                steps.push(step);
                assert(step_views(steps@) =~= step_views(so_far) + seq![step@]);
                return steps;
            },
        }
        i = i + 1;
    }
    assert(step_views(steps@) =~= step_views(steps@) + map_steps(texts(maps@).skip(i as int)));
    steps
}

/// How the run ends on a step that turned out like this. `path` is how the import path of the step
/// is displayed. That the directory of an input cannot be searched ends nothing, and a refused map
/// ends the run whatever was tried.
pub open spec fn import_failure(
    step: ImportStep<Seq<char>>,
    path: Seq<char>,
    outcome: Result<(), Seq<char>>,
) -> Option<Failure<Seq<char>>> {
    match (step, outcome) {
        (ImportStep::BadMap(argument), _) => Some(
            Failure {
                line: "error: import map ‘"@ + argument + "’: contains no ‘=’"@,
                code: 1,
            },
        ),
        (ImportStep::CurrentDirectory, Err(error)) => Some(
            Failure {
                line: "error: cannot add current directory to import path: "@ + error,
                code: 1,
            },
        ),
        (ImportStep::Path(_), Err(error)) => Some(
            Failure { line: "error: import path ‘"@ + path + "’: "@ + error, code: 1 },
        ),
        (ImportStep::MapTo { map: _, path: to }, Err(error)) => Some(
            Failure { line: "error: import path ‘"@ + to + "’: "@ + error, code: 1 },
        ),
        _ => None,
    }
}

impl ImportStep<String> {
    /// How the run ends on this step, if it does.
    fn failure(&self, path: &str, outcome: Result<(), String>) -> (r: Option<Failure<String>>)
        ensures
            match r {
                Some(failure) => import_failure(self@, path@, outcome_view(outcome)) == Some(
                    failure@,
                ),
                None => import_failure(self@, path@, outcome_view(outcome)) is None,
            },
    {
        let line = match (self, outcome) {
            (ImportStep::BadMap(argument), _) => around(
                "error: import map ‘",
                argument.as_str(),
                "’: contains no ‘=’",
            ),
            (ImportStep::CurrentDirectory, Err(error)) => {
                "error: cannot add current directory to import path: ".to_owned().concat(
                    error.as_str(),
                )
            },
            (ImportStep::Path(_), Err(error)) => around(
                "error: import path ‘",
                path,
                "’: ",
            ).concat(error.as_str()),
            (ImportStep::MapTo { map: _, path: to }, Err(error)) => around(
                "error: import path ‘",
                to.as_str(),
                "’: ",
            ).concat(error.as_str()),
            _ => return None,
        };
        Some(Failure { line, code: 1 })
    }
}

/// What comes next when the import resolver is set up.
#[derive(Debug, PartialEq, Eq)]
pub enum ImportNext<S> {
    /// The step of this number is to be tried.
    Then(usize),
    /// Nothing: the resolver is set up.
    Ready,
    /// The run ends.
    Fail(Failure<S>),
}

impl View for ImportNext<String> {
    type V = ImportNext<Seq<char>>;

    open spec fn view(&self) -> ImportNext<Seq<char>> {
        match self {
            ImportNext::Then(i) => ImportNext::Then(*i),
            ImportNext::Ready => ImportNext::Ready,
            ImportNext::Fail(failure) => ImportNext::Fail(failure@),
        }
    }
}

/// What follows the step of number `i`: the end of the run, or the next step, or, behind the last,
/// nothing.
pub open spec fn import_next(
    steps: Seq<ImportStep<Seq<char>>>,
    i: nat,
    path: Seq<char>,
    outcome: Result<(), Seq<char>>,
) -> ImportNext<Seq<char>> {
    match import_failure(steps[i as int], path, outcome) {
        Some(failure) => ImportNext::Fail(failure),
        None => if i + 1 < steps.len() {
            ImportNext::Then((i + 1) as usize)
        } else {
            ImportNext::Ready
        },
    }
}

/// Decides what follows the step of number `i`, when it has been tried. `path` is how the import
/// path of the step is displayed.
pub fn after_import(
    steps: &Vec<ImportStep<String>>,
    i: usize,
    path: &str,
    outcome: Result<(), String>,
) -> (r: ImportNext<String>)
    requires
        i < steps@.len(),
    ensures
        r@ == import_next(step_views(steps@), i as nat, path@, outcome_view(outcome)),
        match r {
            ImportNext::Fail(failure) => {
                &&& failure.code == 1
                &&& match (steps@[i as int], outcome) {
                    (ImportStep::BadMap(argument), _) => failure.line@ == "error: import map ‘"@
                        + argument@ + "’: contains no ‘=’"@,
                    (ImportStep::CurrentDirectory, Err(error)) => failure.line@
                        == "error: cannot add current directory to import path: "@ + error@,
                    (ImportStep::Path(_), Err(error)) => failure.line@ == "error: import path ‘"@
                        + path@ + "’: "@ + error@,
                    (ImportStep::MapTo { map: _, path: to }, Err(error)) => failure.line@
                        == "error: import path ‘"@ + to@ + "’: "@ + error@,
                    _ => false,
                }
            },
            ImportNext::Then(next) => {
                &&& next == i + 1
                &&& next < steps@.len()
                &&& !(steps@[i as int] is BadMap)
                &&& steps@[i as int] is InputDirectory || outcome is Ok
            },
            ImportNext::Ready => {
                &&& i + 1 == steps@.len()
                &&& !(steps@[i as int] is BadMap)
                &&& steps@[i as int] is InputDirectory || outcome is Ok
            },
        },
{
    assert(step_views(steps@)[i as int] == steps@[i as int]@);
    match steps[i].failure(path, outcome) {
        Some(failure) => ImportNext::Fail(failure),
        None => if i < steps.len() - 1 {
            ImportNext::Then(i + 1)
        } else {
            ImportNext::Ready
        },
    }
}

/// How the set-up of the import resolver went: how many steps were tried, and how it ended.
pub struct SetUp {
    pub tried: nat,
    pub end: ImportNext<Seq<char>>,
}

/// The set-up from the step of number `i` on, where each step is displayed and would turn out like
/// this.
pub open spec fn set_up_from(
    steps: Seq<ImportStep<Seq<char>>>,
    i: nat,
    paths: spec_fn(nat) -> Seq<char>,
    outcomes: spec_fn(nat) -> Result<(), Seq<char>>,
) -> SetUp
    decreases steps.len() - i,
{
    match import_next(steps, i, paths(i), outcomes(i)) {
        ImportNext::Then(next) => if i < next < steps.len() {
            set_up_from(steps, next as nat, paths, outcomes)
        } else {
            SetUp { tried: i + 1, end: ImportNext::Then(next) }
        },
        end => SetUp { tried: i + 1, end },
    }
}

/// The set-up from step `i` on tries one step after the other. Where none of them ends the run, all
/// are tried and the resolver is set up; otherwise the first that does is the last one tried, and
/// the run ends with 1 and its line.
pub proof fn set_up_stops_at_failure(
    steps: Seq<ImportStep<Seq<char>>>,
    i: nat,
    paths: spec_fn(nat) -> Seq<char>,
    outcomes: spec_fn(nat) -> Result<(), Seq<char>>,
)
    requires
        i < steps.len() <= usize::MAX,
    ensures
        ({
            let whole = set_up_from(steps, i, paths, outcomes);
            &&& i < whole.tried <= steps.len()
            &&& forall|j: nat|
                i <= j < whole.tried - 1 ==> import_failure(
                    steps[j as int],
                    #[trigger] paths(j),
                    outcomes(j),
                ) is None
            &&& match import_failure(
                steps[whole.tried - 1],
                paths((whole.tried - 1) as nat),
                outcomes((whole.tried - 1) as nat),
            ) {
                Some(failure) => whole.end == ImportNext::Fail(failure) && failure.code == 1,
                None => whole.end == ImportNext::<Seq<char>>::Ready && whole.tried == steps.len(),
            }
        }),
    decreases steps.len() - i,
{
    if import_failure(steps[i as int], paths(i), outcomes(i)) is None && i + 1 < steps.len() {
        set_up_stops_at_failure(steps, i + 1, paths, outcomes);
    }
}

/// An import map is read exactly when it holds `=`; the parts put back together with `=` between
/// them are the argument, and the map itself holds no `=`.
pub proof fn map_parts_rejoin(argument: Seq<char>)
    ensures
        map_parts(argument) is Some <==> argument.contains('='),
        map_parts(argument) matches Some((map, path)) ==> argument == map + seq!['='] + path
            && !map.contains('='),
{
    argument.index_of_first_ensures('=');
    if let Some(i) = argument.index_of_first('=') {
        assert(argument =~= argument.take(i) + seq!['='] + argument.skip(i + 1));
    }
}

/// Where no import map is refused, each is set up; otherwise the first refused one is the last
/// step.
pub proof fn map_steps_stop_at_first_refusal(maps: Seq<Seq<char>>)
    ensures
        (forall|i: int| 0 <= i < maps.len() ==> map_parts(#[trigger] maps[i]) is Some) ==> {
            &&& map_steps(maps).len() == maps.len()
            &&& forall|i: int|
                0 <= i < maps.len() ==> #[trigger] map_steps(maps)[i] is MapTo
        },
        forall|i: int|
            0 <= i < map_steps(maps).len() && #[trigger] map_steps(maps)[i] is BadMap ==> i
                == map_steps(maps).len() - 1 && map_parts(maps[i]) is None && map_steps(maps)[i]
                == ImportStep::BadMap(maps[i]) && i < maps.len(),
    decreases maps.len(),
{
    if maps.len() > 0 {
        let rest = maps.drop_first();
        map_steps_stop_at_first_refusal(rest);
        if map_parts(maps[0]) is Some {
            let steps = map_steps(maps);
            let tail = map_steps(rest);
            assert(forall|i: int| 1 <= i < steps.len() ==> #[trigger] steps[i] == tail[i - 1]);
            assert(forall|i: int| 0 <= i < rest.len() ==> #[trigger] rest[i] == maps[i + 1]);
            if forall|i: int| 0 <= i < maps.len() ==> map_parts(#[trigger] maps[i]) is Some {
                assert forall|i: int| 0 <= i < rest.len() implies map_parts(
                    #[trigger] rest[i],
                ) is Some by {
                    assert(map_parts(maps[i + 1]) is Some);
                }
                assert forall|i: int| 0 <= i < maps.len() implies #[trigger] steps[i] is MapTo by {
                    if i > 0 {
                        assert(tail[i - 1] is MapTo);
                    }
                }
            }
            assert forall|i: int|
                0 <= i < steps.len() && #[trigger] steps[i] is BadMap implies i == steps.len() - 1
                && map_parts(maps[i]) is None && steps[i] == ImportStep::BadMap(maps[i]) && i
                < maps.len() by {
                assert(i > 0);
                assert(tail[i - 1] is BadMap);
                assert(rest[i - 1] == maps[i]);
            }
        }
    }
}

} // verus!
