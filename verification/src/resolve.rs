//! Finding the program that a name stands for.
//!
//! The caller looks at the file system and writes down what it saw: what the
//! name itself points at, and what each directory of the search path holds.
//! [`executable_find`] decides from that record alone.

use vstd::prelude::*;

verus! {

/// What the file system says of one path, links followed.
#[derive(Clone, Copy, Debug, PartialEq, Eq)]
pub struct Metadata {
    /// Whether the path is a regular file.
    pub is_file: bool,
    /// The permission bits, on a platform that has them.
    pub mode: Option<u32>,
}

/// One entry of a directory.
#[derive(Debug, PartialEq, Eq)]
pub struct DirEntry {
    /// The entry's name within its directory, where the name is valid text.
    pub file_name: Option<String>,
    /// The directory's path joined with the entry's name.
    pub path: String,
    /// What the file system says of the entry; `None` where it cannot be asked.
    pub metadata: Option<Metadata>,
}

/// One directory of the search path.
#[derive(Debug, PartialEq, Eq)]
pub struct SearchDir {
    /// The entries in the order in which the directory lists them; `None`
    /// where the directory cannot be read.
    pub entries: Option<Vec<DirEntry>>,
}

/// A directory entry as contracts see it.
pub struct DirEntryView {
    pub file_name: Option<Seq<char>>,
    pub path: Seq<char>,
    pub metadata: Option<Metadata>,
}

/// A directory of the search path as contracts see it.
pub struct SearchDirView {
    pub entries: Option<Seq<DirEntryView>>,
}

impl View for DirEntry {
    type V = DirEntryView;

    open spec fn view(&self) -> DirEntryView {
        DirEntryView {
            file_name: self.file_name.deep_view(),
            path: self.path@,
            metadata: self.metadata,
        }
    }
}

impl DeepView for DirEntry {
    type V = DirEntryView;

    open spec fn deep_view(&self) -> DirEntryView {
        self@
    }
}

impl View for SearchDir {
    type V = SearchDirView;

    open spec fn view(&self) -> SearchDirView {
        SearchDirView { entries: self.entries.deep_view() }
    }
}

impl DeepView for SearchDir {
    type V = SearchDirView;

    open spec fn deep_view(&self) -> SearchDirView {
        self@
    }
}

/// Whether a path may be run: with permission bits, one of the three execute
/// bits is set; without them, the path is a regular file. A path of which
/// nothing is known may not be run.
pub open spec fn executable(metadata: Option<Metadata>) -> bool {
    match metadata {
        Some(m) => match m.mode {
            Some(bits) => bits & 0o111 != 0,
            None => m.is_file,
        },
        None => false,
    }
}

/// Whether a path is a regular file that may be run.
pub open spec fn executable_file(metadata: Option<Metadata>) -> bool {
    metadata matches Some(m) && m.is_file && executable(metadata)
}

/// Whether an entry answers a search for `name`: it has exactly that name and
/// is a regular file that may be run.
pub open spec fn is_match(entry: DirEntryView, name: Seq<char>) -> bool {
    entry.file_name == Some(name) && executable_file(entry.metadata)
}

/// The path of the first entry that answers a search for `name`.
pub open spec fn first_match(entries: Seq<DirEntryView>, name: Seq<char>) -> Option<Seq<char>>
    decreases entries.len(),
{
    if entries.len() == 0 {
        None
    } else if is_match(entries.first(), name) {
        Some(entries.first().path)
    } else {
        first_match(entries.drop_first(), name)
    }
}

/// What one directory answers to a search for `name`. A directory that cannot
/// be read answers nothing.
pub open spec fn listed(dir: SearchDirView, name: Seq<char>) -> Option<Seq<char>> {
    match dir.entries {
        Some(entries) => first_match(entries, name),
        None => None,
    }
}

/// The answer of the first directory that has one.
pub open spec fn search(dirs: Seq<SearchDirView>, name: Seq<char>) -> Option<Seq<char>>
    decreases dirs.len(),
{
    if dirs.len() == 0 {
        None
    } else if listed(dirs.first(), name) is Some {
        listed(dirs.first(), name)
    } else {
        search(dirs.drop_first(), name)
    }
}

/// The program that `name` stands for: the name itself where it is the path
/// of a regular file that may be run, else what the search path answers.
pub open spec fn resolved(
    name: Seq<char>,
    direct: Option<Metadata>,
    dirs: Seq<SearchDirView>,
) -> Option<Seq<char>> {
    if executable_file(direct) {
        Some(name)
    } else {
        search(dirs, name)
    }
}

/// Whether a path may be run, given what the file system says of it.
pub fn is_executable(metadata: &Option<Metadata>) -> (b: bool)
    ensures
        b == executable(*metadata),
{
    match metadata {
        Some(m) => match m.mode {
            Some(bits) => bits & 0o111 != 0,
            None => m.is_file,
        },
        None => false,
    }
}

/// Whether a path is a regular file that may be run.
fn is_executable_file(metadata: &Option<Metadata>) -> (b: bool)
    ensures
        b == executable_file(*metadata),
{
    match metadata {
        Some(m) => m.is_file && is_executable(metadata),
        None => false,
    }
}

/// The first entry of one directory that answers a search for `wanted`.
fn find_in_entries(entries: &Vec<DirEntry>, wanted: &String) -> (found: Option<String>)
    ensures
        found.deep_view() == first_match(entries.deep_view(), wanted@),
{
    let ghost all = entries.deep_view();
    let mut j: usize = 0;
    assert(all.skip(0) =~= all);
    while j < entries.len()
        invariant
            all == entries.deep_view(),
            j <= entries.len(),
            first_match(all, wanted@) == first_match(all.skip(j as int), wanted@),
        decreases entries.len() - j,
    {
        let entry = &entries[j];
        assert(all.skip(j as int).first() == entry@);
        assert(all.skip(j as int).drop_first() =~= all.skip(j + 1));
        let named: bool = match &entry.file_name {
            Some(name) => *name == *wanted,
            None => false,
        };
        if named && is_executable_file(&entry.metadata) {
            return Some(entry.path.clone());
        }
        j += 1;
    }
    None
}

/// Finds the program that `filename` stands for.
///
/// `direct` is what the file system says of `filename` taken as a path, and
/// `paths` is the search path in order. A name that is itself the path of a
/// regular file that may be run is the answer; the search path is then not
/// looked at. Otherwise the answer is the first entry, in the first directory
/// that has one, with exactly this name that is a regular file and may be
/// run. Directories that cannot be read are passed over.
pub fn executable_find(filename: &str, direct: &Option<Metadata>, paths: &[SearchDir]) -> (found:
    Option<String>)
    ensures
        found.deep_view() == resolved(filename@, *direct, paths.deep_view()),
{
    let wanted: String = filename.to_owned();
    if is_executable_file(direct) {
        return Some(wanted);
    }
    let ghost all = paths.deep_view();
    let mut i: usize = 0;
    assert(all.skip(0) =~= all);
    while i < paths.len()
        invariant
            all == paths.deep_view(),
            wanted@ == filename@,
            !executable_file(*direct),
            i <= paths.len(),
            search(all, wanted@) == search(all.skip(i as int), wanted@),
        decreases paths.len() - i,
    {
        assert(all.skip(i as int).first() == paths[i as int]@);
        assert(all.skip(i as int).drop_first() =~= all.skip(i + 1));
        match &paths[i].entries {
            Some(entries) => {
                let found = find_in_entries(entries, &wanted);
                assert(listed(paths[i as int]@, wanted@) == found.deep_view());
                if found.is_some() {
                    return found;
                }
            },
            None => {},
        }
        i += 1;
    }
    None
}

/// Whether a directory can be read and holds an entry that answers a search
/// for `name`.
pub open spec fn holds(dir: SearchDirView, name: Seq<char>) -> bool {
    dir.entries matches Some(entries) && exists|j: int|
        0 <= j < entries.len() && is_match(#[trigger] entries[j], name)
}

/// Within one directory the answer is the earliest entry that answers the
/// search; the result is its position. Without such an entry there is no
/// answer.
pub proof fn first_match_is_earliest(entries: Seq<DirEntryView>, name: Seq<char>) -> (j: int)
    ensures
        first_match(entries, name) is Some <==> exists|k: int|
            0 <= k < entries.len() && is_match(#[trigger] entries[k], name),
        first_match(entries, name) is Some ==> {
            &&& 0 <= j < entries.len()
            &&& is_match(entries[j], name)
            &&& first_match(entries, name) == Some(entries[j].path)
            &&& forall|k: int| 0 <= k < j ==> !is_match(#[trigger] entries[k], name)
        },
    decreases entries.len(),
{
    if entries.len() == 0 {
        0
    } else if is_match(entries.first(), name) {
        assert(is_match(entries[0], name));
        0
    } else {
        let rest = entries.drop_first();
        let j = first_match_is_earliest(rest, name);
        if first_match(rest, name) is Some {
            assert(rest[j] == entries[j + 1]);
            assert(is_match(entries[j + 1], name));
            assert forall|k: int| 0 <= k < j + 1 implies !is_match(#[trigger] entries[k], name) by {
                if k > 0 {
                    assert(entries[k] == rest[k - 1]);
                }
            }
        } else {
            assert forall|k: int| 0 <= k < entries.len() implies !is_match(
                #[trigger] entries[k],
                name,
            ) by {
                if k > 0 {
                    assert(entries[k] == rest[k - 1]);
                }
            }
        }
        j + 1
    }
}

/// A directory answers a search exactly when it holds an entry for it.
pub proof fn listed_iff_holds(dir: SearchDirView, name: Seq<char>)
    ensures
        listed(dir, name) is Some <==> holds(dir, name),
{
    if dir.entries is Some {
        first_match_is_earliest(dir.entries->0, name);
    }
}

/// Along the search path the answer is that of the earliest directory that
/// holds an entry for the name, whatever the directories after it hold.
pub proof fn search_is_earliest(dirs: Seq<SearchDirView>, name: Seq<char>, i: int)
    requires
        0 <= i < dirs.len(),
        holds(dirs[i], name),
        forall|k: int| 0 <= k < i ==> !holds(#[trigger] dirs[k], name),
    ensures
        search(dirs, name) == listed(dirs[i], name),
        search(dirs, name) is Some,
    decreases i,
{
    listed_iff_holds(dirs.first(), name);
    if i > 0 {
        let rest = dirs.drop_first();
        assert(rest[i - 1] == dirs[i]);
        assert forall|k: int| 0 <= k < i - 1 implies !holds(#[trigger] rest[k], name) by {
            assert(rest[k] == dirs[k + 1]);
        }
        search_is_earliest(rest, name, i - 1);
    }
}

/// First match wins: where the name is not itself the path of a program and
/// two directories of the search path both hold an entry for it, the answer
/// is the entry of the first directory.
pub proof fn first_match_wins(
    name: Seq<char>,
    direct: Option<Metadata>,
    dir_a: SearchDirView,
    dir_b: SearchDirView,
)
    requires
        !executable_file(direct),
        holds(dir_a, name),
        holds(dir_b, name),
    ensures
        resolved(name, direct, seq![dir_a, dir_b]) == listed(dir_a, name),
        listed(dir_a, name) is Some,
{
    search_is_earliest(seq![dir_a, dir_b], name, 0);
}

/// A name that is itself the path of a regular file that may be run stands
/// for that file, whatever the search path holds.
pub proof fn direct_path_wins(name: Seq<char>, direct: Option<Metadata>, dirs: Seq<SearchDirView>)
    requires
        executable_file(direct),
    ensures
        resolved(name, direct, dirs) == Some(name),
{
}

/// A name that nothing answers stands for no program.
pub proof fn unanswered_is_unresolved(
    name: Seq<char>,
    direct: Option<Metadata>,
    dirs: Seq<SearchDirView>,
)
    requires
        !executable_file(direct),
        forall|k: int| 0 <= k < dirs.len() ==> !holds(#[trigger] dirs[k], name),
    ensures
        resolved(name, direct, dirs) is None,
    decreases dirs.len(),
{
    if dirs.len() > 0 {
        listed_iff_holds(dirs.first(), name);
        let rest = dirs.drop_first();
        assert forall|k: int| 0 <= k < rest.len() implies !holds(#[trigger] rest[k], name) by {
            assert(rest[k] == dirs[k + 1]);
        }
        unanswered_is_unresolved(name, direct, rest);
    }
}

} // verus!
