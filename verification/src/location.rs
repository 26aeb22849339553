//! Where files are kept: a directory that the system names, and the parts to join to it.

use std::path::PathBuf;

use vstd::prelude::*;

verus! {

/// Declares the path type of the standard library. A path is carried through and never looked
/// into.
#[verifier::external_type_specification]
#[verifier::external_body]
pub struct ExPathBuf(PathBuf);

/// The name of the usage log.
pub const LOG_FILE_NAME: &'static str = "usage-log.jsonl";

/// A place below a directory: what is found by joining `parts` to `base`, one after another.
#[derive(Debug)]
pub struct Location {
    pub base: PathBuf,
    pub parts: Vec<String>,
}

/// `Location` as a mathematical value.
pub struct LocationView {
    pub base: PathBuf,
    pub parts: Seq<Seq<char>>,
}

impl View for Location {
    type V = LocationView;

    open spec fn view(&self) -> LocationView {
        LocationView { base: self.base, parts: self.parts@.map_values(|s: String| s@) }
    }
}

/// The view of an optional place.
pub open spec fn place(location: Option<Location>) -> Option<LocationView> {
    match location {
        Some(l) => Some(l@),
        None => None,
    }
}

impl Location {
    /// The directory itself.
    pub fn at(base: PathBuf) -> (res: Location)
        ensures
            res@.base == base,
            res@.parts == Seq::<Seq<char>>::empty(),
    {
        let res = Location { base, parts: Vec::new() };
        assert(res@.parts =~= Seq::empty());
        res
    }

    /// The place that is found by joining one more part.
    pub fn join(self, part: &str) -> (res: Location)
        ensures
            res@.base == self@.base,
            res@.parts == self@.parts.push(part@),
    {
        let Location { base, parts } = self;
        let ghost before = parts@;
        let mut parts = parts;
        parts.push(part.to_owned());
        let res = Location { base, parts };
        assert(res@.parts =~= before.map_values(|s: String| s@).push(part@));
        res
    }
}

/// Calls `dirs::config_dir`. Nothing is claimed of the result: it is what the user's environment
/// makes it.
#[verifier::external_body]
pub(crate) fn config_dir() -> (res: Option<PathBuf>) {
    dirs::config_dir()
}

/// A directory on the way from the running program to the root of its file system (the program
/// itself comes first), and whether it holds what the root of the project's repository holds.
#[derive(Debug)]
pub struct Ancestor {
    pub path: PathBuf,
    pub has_git: bool,
    pub has_manifest: bool,
}

/// Whether a directory is the root of the project's repository.
pub open spec fn repo_root(ancestor: Ancestor) -> bool {
    ancestor.has_git && ancestor.has_manifest
}

/// The first repository root at `from` or after it.
pub open spec fn first_root(ancestors: Seq<Ancestor>, from: int) -> Option<int>
    decreases ancestors.len() - from,
{
    if from >= ancestors.len() {
        None
    } else if repo_root(ancestors[from]) {
        Some(from)
    } else {
        first_root(ancestors, from + 1)
    }
}

/// The directory that the way to the program settles on: the nearest repository root, or else
/// the program's own directory.
pub open spec fn program_base(ancestors: Seq<Ancestor>) -> Option<PathBuf> {
    match first_root(ancestors, 0) {
        Some(i) => Some(ancestors[i].path),
        None => if ancestors.len() >= 2 {
            Some(ancestors[1].path)
        } else {
            None
        },
    }
}

/// What is known of the way to the program.
pub open spec fn ancestors_of(program: Option<Vec<Ancestor>>) -> Seq<Ancestor> {
    match program {
        Some(ancestors) => ancestors@,
        None => Seq::empty(),
    }
}

/// Where the usage data is kept: below the directory that the way to the program settles on, or
/// else below the user's configuration.
pub open spec fn data_place(ancestors: Seq<Ancestor>, config: Option<PathBuf>) -> Option<
    LocationView,
> {
    match program_base(ancestors) {
        Some(base) => Some(LocationView { base, parts: seq!["data"@] }),
        None => match config {
            Some(base) => Some(LocationView { base, parts: seq!["CodexBar"@, "data"@] }),
            None => None,
        },
    }
}

/// Where the usage log is kept.
pub open spec fn log_place(ancestors: Seq<Ancestor>, config: Option<PathBuf>) -> Option<
    LocationView,
> {
    match data_place(ancestors, config) {
        Some(dir) => Some(
            LocationView { base: dir.base, parts: dir.parts.push(LOG_FILE_NAME@) },
        ),
        None => None,
    }
}

/// Which of the directories the way to the program settles on.
fn program_base_index(ancestors: &Vec<Ancestor>) -> (res: Option<usize>)
    ensures
        res is None <==> program_base(ancestors@) is None,
        res matches Some(i) ==> i < ancestors@.len() && program_base(ancestors@) == Some(
            ancestors@[i as int].path,
        ),
{
    let mut i: usize = 0;
    while i < ancestors.len()
        invariant
            i <= ancestors@.len(),
            first_root(ancestors@, 0) == first_root(ancestors@, i as int),
        decreases ancestors@.len() - i,
    {
        if ancestors[i].has_git && ancestors[i].has_manifest {
            return Some(i);
        }
        i = i + 1;
    }
    if ancestors.len() >= 2 {
        Some(1)
    } else {
        None
    }
}

/// The directory that the way to the program settles on.
fn take_program_base(ancestors: Vec<Ancestor>) -> (res: Option<PathBuf>)
    ensures
        res == program_base(ancestors@),
{
    match program_base_index(&ancestors) {
        Some(i) => {
            let mut ancestors = ancestors;
            let found = ancestors.swap_remove(i);
            Some(found.path)
        },
        None => None,
    }
}

/// Where the usage data is kept, given the way to the program and the user's configuration
/// directory.
pub fn usage_data_dir_from(
    program: Option<Vec<Ancestor>>,
    config: Option<PathBuf>,
) -> (res: Option<Location>)
    ensures
        place(res) == data_place(ancestors_of(program), config),
{
    let base = match program {
        Some(ancestors) => take_program_base(ancestors),
        None => None,
    };
    match base {
        Some(base) => {
            let res = Location::at(base).join("data");
            assert(res@.parts =~= seq!["data"@]);
            Some(res)
        },
        None => match config {
            Some(base) => {
                let res = Location::at(base).join("CodexBar").join("data");
                assert(res@.parts =~= seq!["CodexBar"@, "data"@]);
                Some(res)
            },
            None => None,
        },
    }
}

/// Where the usage log is kept, given the way to the program and the user's configuration
/// directory.
pub fn usage_log_path_from(
    program: Option<Vec<Ancestor>>,
    config: Option<PathBuf>,
) -> (res: Option<Location>)
    ensures
        place(res) == log_place(ancestors_of(program), config),
{
    match usage_data_dir_from(program, config) {
        Some(dir) => Some(dir.join(LOG_FILE_NAME)),
        None => None,
    }
}

/// Whether the way to the program settles where data is kept.
fn program_decides(program: &Option<Vec<Ancestor>>) -> (res: bool)
    ensures
        res == (program_base(ancestors_of(*program)) is Some),
{
    match program {
        Some(ancestors) => program_base_index(ancestors).is_some(),
        None => false,
    }
}

/// Where the usage log is kept, given the way to the program; the user's configuration directory
/// is asked for where that settles nothing.
pub fn usage_log_path(program: Option<Vec<Ancestor>>) -> (res: Option<Location>)
    ensures
        program_base(ancestors_of(program)) is Some ==> place(res) == log_place(
            ancestors_of(program),
            None,
        ),
        exists|config: Option<PathBuf>|
            place(res) == #[trigger] log_place(ancestors_of(program), config),
{
    if program_decides(&program) {
        usage_log_path_from(program, None)
    } else {
        usage_log_path_from(program, config_dir())
    }
}

/// Where Cursor keeps its state, given the user's configuration directory.
pub open spec fn cursor_state_place(config: Option<PathBuf>) -> Option<LocationView> {
    match config {
        Some(base) => Some(
            LocationView {
                base,
                parts: seq!["Cursor"@, "User"@, "globalStorage"@, "state.vscdb"@],
            },
        ),
        None => None,
    }
}

/// Where Cursor keeps its state, given the user's configuration directory.
pub fn cursor_state_db_path_from(config: Option<PathBuf>) -> (res: Option<Location>)
    ensures
        place(res) == cursor_state_place(config),
{
    match config {
        Some(base) => {
            let res = Location::at(base).join("Cursor").join("User").join("globalStorage").join(
                "state.vscdb",
            );
            assert(res@.parts =~= seq!["Cursor"@, "User"@, "globalStorage"@, "state.vscdb"@]);
            Some(res)
        },
        None => None,
    }
}

/// Where Cursor keeps its state, below whatever the user's configuration directory is.
pub fn cursor_state_db_path() -> (res: Option<Location>)
    ensures
        exists|config: Option<PathBuf>| place(res) == #[trigger] cursor_state_place(config),
{
    cursor_state_db_path_from(config_dir())
}

/// The nearest repository root is found: no directory before it is one.
pub proof fn law_root_is_nearest(ancestors: Seq<Ancestor>, from: int)
    requires
        0 <= from,
    ensures
        first_root(ancestors, from) matches Some(i) ==> from <= i < ancestors.len() && repo_root(
            ancestors[i],
        ) && forall|j: int| from <= j < i ==> !repo_root(ancestors[j]),
        first_root(ancestors, from) is None ==> forall|j: int|
            from <= j < ancestors.len() ==> !repo_root(ancestors[j]),
    decreases ancestors.len() - from,
{
    if from < ancestors.len() && !repo_root(ancestors[from]) {
        law_root_is_nearest(ancestors, from + 1);
    }
}

/// A log path exists wherever the program is known to lie in a directory, or the user has a
/// configuration directory; and the log is then named the same wherever it is kept.
pub proof fn law_log_has_a_place(ancestors: Seq<Ancestor>, config: Option<PathBuf>)
    ensures
        ancestors.len() >= 2 || config is Some ==> log_place(ancestors, config) is Some,
        log_place(ancestors, config) matches Some(l) ==> l.parts.last() == LOG_FILE_NAME@,
{
}

/// The parts of a place, in words.
proof fn lemma_parts(l: Location, parts: Seq<Seq<char>>)
    requires
        l@.parts == parts,
    ensures
        l.parts@.len() == parts.len(),
        forall|i: int| 0 <= i < parts.len() ==> (#[trigger] l.parts@[i])@ == parts[i],
{
    assert forall|i: int| 0 <= i < parts.len() implies (#[trigger] l.parts@[i])@ == parts[i] by {
        assert(l@.parts[i] == l.parts@[i]@);
    }
}

/// With a repository root on the way to the program, the log is kept in its `data` directory,
/// whatever the configuration is; the nearest root counts.
pub proof fn law_log_at_repository_root(
    ancestors: Seq<Ancestor>,
    config: Option<PathBuf>,
    i: int,
    res: Option<Location>,
)
    requires
        0 <= i < ancestors.len(),
        ancestors[i].has_git,
        ancestors[i].has_manifest,
        forall|j: int|
            0 <= j < i ==> !((#[trigger] ancestors[j]).has_git && ancestors[j].has_manifest),
        place(res) == log_place(ancestors, config),
    ensures
        res matches Some(l) && l.base == ancestors[i].path && l.parts@.len() == 2
            && l.parts@[0]@ == "data"@ && l.parts@[1]@ == "usage-log.jsonl"@,
{
    law_root_is_nearest(ancestors, 0);
    if let Some(l) = res {
        assert(l@.parts =~= seq!["data"@, "usage-log.jsonl"@]);
        lemma_parts(l, seq!["data"@, "usage-log.jsonl"@]);
    }
}

/// Without a repository root the log is kept in the `data` directory beside the program; where the
/// program lies in no directory, below the user's configuration; and without that nowhere.
pub proof fn law_log_without_repository(
    ancestors: Seq<Ancestor>,
    config: Option<PathBuf>,
    res: Option<Location>,
)
    requires
        forall|j: int|
            0 <= j < ancestors.len() ==> !((#[trigger] ancestors[j]).has_git
                && ancestors[j].has_manifest),
        place(res) == log_place(ancestors, config),
    ensures
        ancestors.len() >= 2 ==> (res matches Some(l) && l.base == ancestors[1].path
            && l.parts@.len() == 2 && l.parts@[0]@ == "data"@ && l.parts@[1]@
            == "usage-log.jsonl"@),
        ancestors.len() < 2 && config is Some ==> (res matches Some(l) && l.base == config->0
            && l.parts@.len() == 3 && l.parts@[0]@ == "CodexBar"@ && l.parts@[1]@ == "data"@
            && l.parts@[2]@ == "usage-log.jsonl"@),
        ancestors.len() < 2 && config is None ==> res is None,
{
    law_root_is_nearest(ancestors, 0);
    if let Some(l) = res {
        if ancestors.len() >= 2 {
            assert(l@.parts =~= seq!["data"@, "usage-log.jsonl"@]);
            lemma_parts(l, seq!["data"@, "usage-log.jsonl"@]);
        } else {
            assert(l@.parts =~= seq!["CodexBar"@, "data"@, "usage-log.jsonl"@]);
            lemma_parts(l, seq!["CodexBar"@, "data"@, "usage-log.jsonl"@]);
        }
    }
}

/// The log is kept directly in the directory of the usage data, wherever that is.
pub proof fn law_log_is_in_data_directory(ancestors: Seq<Ancestor>, config: Option<PathBuf>)
    ensures
        log_place(ancestors, config) is Some <==> data_place(ancestors, config) is Some,
        log_place(ancestors, config) matches Some(l) ==> {
            let dir = data_place(ancestors, config)->0;
            l.base == dir.base && l.parts == dir.parts.push("usage-log.jsonl"@)
        },
{
}

/// What is known of the way to the program is all of it, and nothing where it is not known.
pub proof fn law_ancestors_of_program(ancestors: Vec<Ancestor>)
    ensures
        ancestors_of(Some(ancestors)) == ancestors@,
        ancestors_of(None) == Seq::<Ancestor>::empty(),
{
}

/// Cursor keeps its state at a fixed place below the user's configuration, and nowhere without one.
pub proof fn law_cursor_state_is_below_configuration(config: Option<PathBuf>, res: Option<Location>)
    requires
        place(res) == cursor_state_place(config),
    ensures
        res is Some <==> config is Some,
        res matches Some(l) ==> l.base == config->0 && l.parts@.len() == 4 && l.parts@[0]@
            == "Cursor"@ && l.parts@[1]@ == "User"@ && l.parts@[2]@ == "globalStorage"@
            && l.parts@[3]@ == "state.vscdb"@,
{
    if let Some(l) = res {
        lemma_parts(l, seq!["Cursor"@, "User"@, "globalStorage"@, "state.vscdb"@]);
    }
}

/// A place is shown by its directory and its parts, and no place as none.
pub proof fn law_place_by_fields(l: Location, i: int)
    requires
        0 <= i < l.parts@.len(),
    ensures
        place(Some(l)) matches Some(v) && v.base == l.base && v.parts.len() == l.parts@.len()
            && v.parts[i] == l.parts@[i]@,
        place(None) is None,
{
}

} // verus!
