//! The store of past sessions: which files belong to it, and how it is
//! walked.
//!
//! Past sessions lie below one directory, in directories by year, month and
//! day; each is a file whose name ends with the session's id and `.jsonl`.
//! Nothing here reads a directory. A walk says which directory is to be read
//! next and is told each entry that was found in it.

use crate::sequences::filter_of_push;
use crate::text::{chars_of, ends_with, finishes_with, string_of, text_views};
use vstd::prelude::*;
use vstd::string::StringExecFns;

verus! {

/// The level of the directories that hold the session files: below the
/// directory of the store come the years, the months and the days.
pub const DAY_LEVEL: u8 = 3;

/// What kind of thing a directory entry is.
#[derive(Clone, Copy, PartialEq, Eq, Debug, Structural)]
pub enum EntryKind {
    Directory,
    File,
    /// Anything else, or an entry whose kind could not be found out.
    Other,
}

/// One entry that was found in a directory.
#[derive(Debug, PartialEq, Eq)]
pub struct WalkEntry {
    /// The full path of the entry.
    pub path: String,
    /// The entry's own name, if it is text.
    pub name: Option<String>,
    pub kind: EntryKind,
}

/// The mathematical value of a [`WalkEntry`].
pub struct EntryModel {
    pub path: Seq<char>,
    pub name: Option<Seq<char>>,
    pub kind: EntryKind,
}

impl View for WalkEntry {
    type V = EntryModel;

    open spec fn view(&self) -> EntryModel {
        EntryModel {
            path: self.path@,
            name: match self.name {
                Some(n) => Some(n@),
                None => None,
            },
            kind: self.kind,
        }
    }
}

/// The name is that of a session file: it ends with `.jsonl`.
pub open spec fn session_file_name(name: Seq<char>) -> bool {
    finishes_with(name, ".jsonl"@)
}

/// Whether the name is that of a session file.
pub fn is_session_file_name(name: &str) -> (is: bool)
    ensures
        is == session_file_name(name@),
{
    ends_with(&chars_of(name), &chars_of(".jsonl"))
}

/// The end of the name of the file that records the session `session`.
pub open spec fn rollout_suffix(session: Seq<char>) -> Seq<char> {
    "-"@ + session + ".jsonl"@
}

/// The end of the name of the file that records the session `session`.
pub fn rollout_suffix_of(session: &str) -> (suffix: String)
    ensures
        suffix@ == rollout_suffix(session@),
{
    String::from_str("-").concat(session).concat(".jsonl")
}

/// Whether a file of this name records the session `session`.
pub fn is_rollout_of(name: &str, session: &str) -> (is: bool)
    ensures
        is == finishes_with(name@, rollout_suffix(session@)),
{
    let suffix = rollout_suffix_of(session);
    ends_with(&chars_of(name), &chars_of(suffix.as_str()))
}

/// How many characters the id of a session has.
pub const SESSION_ID_LEN: usize = 36;

/// The id of the session that a file of this name records: the characters
/// between the last `-` that is followed by exactly [`SESSION_ID_LEN`]
/// characters and the `.jsonl` at the end. `None` for a name of another
/// shape.
pub open spec fn session_id_in(name: Seq<char>) -> Option<Seq<char>> {
    let stem = name.len() - 6;
    if session_file_name(name) && stem > SESSION_ID_LEN && name[stem - SESSION_ID_LEN - 1] == '-' {
        Some(name.subrange(stem - SESSION_ID_LEN, stem))
    } else {
        None
    }
}

/// The id found in a file's name is one for which the file is found again:
/// the name ends as the name of that session's file must.
pub proof fn id_in_name_finds_the_file(name: Seq<char>)
    requires
        session_id_in(name) is Some,
    ensures
        session_id_in(name)->0.len() == SESSION_ID_LEN,
        finishes_with(name, rollout_suffix(session_id_in(name)->0)),
{
    reveal_strlit(".jsonl");
    reveal_strlit("-");
    let id = session_id_in(name)->0;
    let suffix = rollout_suffix(id);
    let stem = name.len() - 6;
    assert(name.subrange(name.len() - 6, name.len() as int) == ".jsonl"@);
    assert(suffix.len() == SESSION_ID_LEN + 7);
    let tail = name.subrange(name.len() - suffix.len(), name.len() as int);
    assert forall|i: int| 0 <= i < suffix.len() implies tail[i] == suffix[i] by {
        if i == 0 {
        } else if i <= SESSION_ID_LEN {
            assert(suffix[i] == id[i - 1]);
        } else {
            assert(suffix[i] == ".jsonl"@[i - SESSION_ID_LEN - 1]);
            assert(name.subrange(name.len() - 6, name.len() as int)[i - SESSION_ID_LEN - 1]
                == name[name.len() - 6 + i - SESSION_ID_LEN - 1]);
        }
    }
    assert(tail =~= suffix);
}

/// The id of the session that a file of this name records, if the name has
/// the shape of a session file's.
pub fn session_id_of(name: &str) -> (id: Option<String>)
    ensures
        match session_id_in(name@) {
            Some(found) => id is Some && id->0@ == found,
            None => id is None,
        },
{
    let chars = chars_of(name);
    let ending = chars_of(".jsonl");
    proof {
        reveal_strlit(".jsonl");
    }
    if !ends_with(&chars, &ending) {
        return None;
    }
    let stem: usize = chars.len() - 6;
    if stem <= SESSION_ID_LEN || chars[stem - SESSION_ID_LEN - 1] != '-' {
        return None;
    }
    Some(string_of(&chars, stem - SESSION_ID_LEN, stem))
}

/// A directory that is yet to be read.
#[derive(Debug, PartialEq, Eq)]
pub struct QueuedDir {
    pub path: String,
    /// How far below the directory of the store it lies.
    pub level: u8,
}

/// The mathematical value of a [`QueuedDir`].
pub struct QueuedModel {
    pub path: Seq<char>,
    pub level: u8,
}

impl View for QueuedDir {
    type V = QueuedModel;

    open spec fn view(&self) -> QueuedModel {
        QueuedModel { path: self.path@, level: self.level }
    }
}

/// The mathematical value of a [`SessionListing`].
pub struct ListingModel {
    /// The directories yet to be read, the next one first.
    pub queue: Seq<QueuedModel>,
    /// The level of the directory that is being read, if one is.
    pub reading: Option<u8>,
    /// The session files found so far.
    pub files: Seq<Seq<char>>,
}

impl ListingModel {
    /// The walk before anything was read.
    pub open spec fn start(sessions_dir: Seq<char>) -> ListingModel {
        ListingModel {
            queue: seq![QueuedModel { path: sessions_dir, level: 0 }],
            reading: None,
            files: Seq::empty(),
        }
    }

    /// The walk after the next directory was handed out to be read.
    pub open spec fn advance(self) -> ListingModel {
        if self.queue.len() == 0 {
            ListingModel { reading: None, ..self }
        } else {
            ListingModel {
                queue: self.queue.skip(1),
                reading: Some(self.queue[0].level),
                ..self
            }
        }
    }

    /// The walk after it was told of `entry`, found in the directory that
    /// is being read: above the days a directory is queued to be read, among
    /// the days an entry with the name of a session file is listed, and
    /// everything else is passed over.
    pub open spec fn visit(self, entry: EntryModel) -> ListingModel {
        match self.reading {
            None => self,
            Some(level) => if level < DAY_LEVEL {
                if entry.kind == EntryKind::Directory {
                    ListingModel {
                        queue: self.queue.push(
                            QueuedModel { path: entry.path, level: (level + 1) as u8 },
                        ),
                        ..self
                    }
                } else {
                    self
                }
            } else if level == DAY_LEVEL && entry.name is Some && session_file_name(
                entry.name->0,
            ) {
                ListingModel { files: self.files.push(entry.path), ..self }
            } else {
                self
            },
        }
    }

    /// No directory that is read or yet to be read lies below the days.
    pub open spec fn within_depth(self) -> bool {
        &&& self.reading is Some ==> self.reading->0 <= DAY_LEVEL
        &&& forall|i: int| 0 <= i < self.queue.len() ==> (#[trigger] self.queue[i]).level <= DAY_LEVEL
    }
}

/// The walk never goes below the days: it starts within that depth, and
/// every step keeps it there.
pub proof fn listing_stays_within_depth(walk: ListingModel, sessions_dir: Seq<char>, entry: EntryModel)
    requires
        walk.within_depth(),
    ensures
        ListingModel::start(sessions_dir).within_depth(),
        walk.advance().within_depth(),
        walk.visit(entry).within_depth(),
{
}

/// The paths of the directories among `entries`, in their order.
pub open spec fn subdirectories(entries: Seq<EntryModel>) -> Seq<Seq<char>> {
    entries.filter(|e: EntryModel| e.kind == EntryKind::Directory).map_values(
        |e: EntryModel| e.path,
    )
}

/// The paths of the entries among `entries` that have the name of a
/// session file, in their order.
pub open spec fn session_files_among(entries: Seq<EntryModel>) -> Seq<Seq<char>> {
    entries.filter(|e: EntryModel| e.name is Some && session_file_name(e.name->0)).map_values(
        |e: EntryModel| e.path,
    )
}

/// The directories that lie directly in the directories `dirs`, directory
/// by directory, where `disk` gives for the path of a directory the entries
/// that are listed in it.
pub open spec fn directories_in(
    dirs: Seq<Seq<char>>,
    disk: spec_fn(Seq<char>) -> Seq<EntryModel>,
) -> Seq<Seq<char>>
    decreases dirs.len(),
{
    if dirs.len() == 0 {
        Seq::empty()
    } else {
        directories_in(dirs.drop_last(), disk) + subdirectories(disk(dirs.last()))
    }
}

/// The session files that lie directly in the directories `days`, directory
/// by directory.
pub open spec fn session_files_in(
    days: Seq<Seq<char>>,
    disk: spec_fn(Seq<char>) -> Seq<EntryModel>,
) -> Seq<Seq<char>>
    decreases days.len(),
{
    if days.len() == 0 {
        Seq::empty()
    } else {
        session_files_in(days.drop_last(), disk) + session_files_among(disk(days.last()))
    }
}

/// The directories of the years, the months and the days in the store below
/// `sessions_dir`.
pub open spec fn year_directories(
    sessions_dir: Seq<char>,
    disk: spec_fn(Seq<char>) -> Seq<EntryModel>,
) -> Seq<Seq<char>> {
    subdirectories(disk(sessions_dir))
}

pub open spec fn month_directories(
    sessions_dir: Seq<char>,
    disk: spec_fn(Seq<char>) -> Seq<EntryModel>,
) -> Seq<Seq<char>> {
    directories_in(year_directories(sessions_dir, disk), disk)
}

pub open spec fn day_directories(
    sessions_dir: Seq<char>,
    disk: spec_fn(Seq<char>) -> Seq<EntryModel>,
) -> Seq<Seq<char>> {
    directories_in(month_directories(sessions_dir, disk), disk)
}

/// The files of all past sessions in the store below `sessions_dir`: the
/// entries with the name of a session file in the directories of the days,
/// by year, month and day in the order in which the directories list them.
pub open spec fn stored_sessions(
    sessions_dir: Seq<char>,
    disk: spec_fn(Seq<char>) -> Seq<EntryModel>,
) -> Seq<Seq<char>> {
    session_files_in(day_directories(sessions_dir, disk), disk)
}

/// The directories `paths`, queued at the level `level`.
pub open spec fn queued_at(paths: Seq<Seq<char>>, level: u8) -> Seq<QueuedModel> {
    paths.map_values(|path: Seq<char>| QueuedModel { path, level })
}

impl ListingModel {
    /// The walk after it was told of each of `entries` in turn.
    pub open spec fn visit_all(self, entries: Seq<EntryModel>) -> ListingModel
        decreases entries.len(),
    {
        if entries.len() == 0 {
            self
        } else {
            self.visit_all(entries.drop_last()).visit(entries.last())
        }
    }

    /// The walk after the next directory was handed out and read: the walk
    /// was told of each entry that `disk` lists in it.
    pub open spec fn read_next(self, disk: spec_fn(Seq<char>) -> Seq<EntryModel>) -> ListingModel {
        if self.queue.len() == 0 {
            self.advance()
        } else {
            self.advance().visit_all(disk(self.queue[0].path))
        }
    }

    /// The walk after `count` directories were handed out and read.
    pub open spec fn run(
        self,
        disk: spec_fn(Seq<char>) -> Seq<EntryModel>,
        count: nat,
    ) -> ListingModel
        decreases count,
    {
        if count == 0 {
            self
        } else {
            self.read_next(disk).run(disk, (count - 1) as nat)
        }
    }

    /// The walk has read the first `done` of the directories `dirs`, which
    /// lie at the level `level` above the days, has yet to read the others,
    /// and has queued behind them what it found.
    pub open spec fn has_read(
        self,
        dirs: Seq<Seq<char>>,
        done: int,
        level: u8,
        disk: spec_fn(Seq<char>) -> Seq<EntryModel>,
    ) -> bool {
        &&& 0 <= done <= dirs.len()
        &&& level < DAY_LEVEL
        &&& self.queue == queued_at(dirs.skip(done), level) + queued_at(
            directories_in(dirs.take(done), disk),
            (level + 1) as u8,
        )
        &&& self.files.len() == 0
    }

    /// The walk has read the first `done` of the directories `days` of the
    /// days, has yet to read the others, and has listed what it found.
    pub open spec fn has_listed(
        self,
        days: Seq<Seq<char>>,
        done: int,
        disk: spec_fn(Seq<char>) -> Seq<EntryModel>,
    ) -> bool {
        &&& 0 <= done <= days.len()
        &&& self.queue == queued_at(days.skip(done), DAY_LEVEL)
        &&& self.files == session_files_in(days.take(done), disk)
    }
}

/// Reading a directory above the days queues its directories, one level
/// further down, and lists nothing.
proof fn reading_queues_directories(walk: ListingModel, entries: Seq<EntryModel>)
    requires
        walk.reading is Some,
        walk.reading->0 < DAY_LEVEL,
    ensures
        walk.visit_all(entries) == (ListingModel {
            queue: walk.queue + queued_at(
                subdirectories(entries),
                (walk.reading->0 + 1) as u8,
            ),
            ..walk
        }),
    decreases entries.len(),
{
    let level = (walk.reading->0 + 1) as u8;
    let is_dir = |e: EntryModel| e.kind == EntryKind::Directory;
    if entries.len() == 0 {
        reveal(Seq::filter);
        assert(subdirectories(entries) =~= Seq::empty());
        assert(walk.queue + queued_at(subdirectories(entries), level) =~= walk.queue);
    } else {
        let front = entries.drop_last();
        let last = entries.last();
        reading_queues_directories(walk, front);
        filter_of_push(front, last, is_dir);
        assert(front.push(last) =~= entries);
        let before = walk.visit_all(front);
        if last.kind == EntryKind::Directory {
            assert(subdirectories(entries) =~= subdirectories(front).push(last.path));
            assert(before.visit(last).queue =~= walk.queue + queued_at(
                subdirectories(entries),
                level,
            ));
        }
    }
}

/// Reading the directory of a day lists its session files and queues
/// nothing.
proof fn reading_lists_files(walk: ListingModel, entries: Seq<EntryModel>)
    requires
        walk.reading == Some(DAY_LEVEL),
    ensures
        walk.visit_all(entries) == (ListingModel {
            files: walk.files + session_files_among(entries),
            ..walk
        }),
    decreases entries.len(),
{
    let named = |e: EntryModel| e.name is Some && session_file_name(e.name->0);
    if entries.len() == 0 {
        reveal(Seq::filter);
        assert(session_files_among(entries) =~= Seq::empty());
        assert(walk.files + session_files_among(entries) =~= walk.files);
    } else {
        let front = entries.drop_last();
        let last = entries.last();
        reading_lists_files(walk, front);
        filter_of_push(front, last, named);
        assert(front.push(last) =~= entries);
        let before = walk.visit_all(front);
        if named(last) {
            assert(session_files_among(entries) =~= session_files_among(front).push(last.path));
            assert(before.visit(last).files =~= walk.files + session_files_among(entries));
        } else {
            assert(session_files_among(entries) =~= session_files_among(front));
        }
    }
}

/// Running a walk for `a` and then for `b` directories is running it for
/// `a + b`.
proof fn run_in_two_parts(
    walk: ListingModel,
    disk: spec_fn(Seq<char>) -> Seq<EntryModel>,
    a: nat,
    b: nat,
)
    ensures
        walk.run(disk, a).run(disk, b) == walk.run(disk, a + b),
    decreases a,
{
    if a > 0 {
        run_in_two_parts(walk.read_next(disk), disk, (a - 1) as nat, b);
    }
}

/// A walk that has read some of the directories of one level above the
/// days has read all of them after as many further directories as were
/// left.
proof fn level_is_read(
    walk: ListingModel,
    dirs: Seq<Seq<char>>,
    done: int,
    level: u8,
    disk: spec_fn(Seq<char>) -> Seq<EntryModel>,
)
    requires
        walk.has_read(dirs, done, level, disk),
    ensures
        walk.run(disk, (dirs.len() - done) as nat).has_read(dirs, dirs.len() as int, level, disk),
    decreases dirs.len() - done,
{
    if done < dirs.len() {
        let next = (level + 1) as u8;
        let rest = queued_at(dirs.skip(done), level);
        let found = queued_at(directories_in(dirs.take(done), disk), next);
        assert(rest[0] == QueuedModel { path: dirs[done], level });
        assert(walk.queue[0] == rest[0]);
        let opened = walk.advance();
        assert(opened.queue =~= queued_at(dirs.skip(done + 1), level) + found);
        reading_queues_directories(opened, disk(dirs[done]));
        let after = walk.read_next(disk);
        assert(dirs.take(done + 1).drop_last() =~= dirs.take(done));
        assert(dirs.take(done + 1).last() == dirs[done]);
        assert(queued_at(directories_in(dirs.take(done + 1), disk), next) =~= found + queued_at(
            subdirectories(disk(dirs[done])),
            next,
        ));
        assert(after.queue =~= queued_at(dirs.skip(done + 1), level) + queued_at(
            directories_in(dirs.take(done + 1), disk),
            next,
        ));
        assert(after.has_read(dirs, done + 1, level, disk));
        level_is_read(after, dirs, done + 1, level, disk);
    }
}

/// A walk that has read all directories of one level stands at the start of
/// the next level.
proof fn next_level_begins(
    walk: ListingModel,
    dirs: Seq<Seq<char>>,
    level: u8,
    disk: spec_fn(Seq<char>) -> Seq<EntryModel>,
)
    requires
        walk.has_read(dirs, dirs.len() as int, level, disk),
    ensures
        level + 1 < DAY_LEVEL ==> walk.has_read(
            directories_in(dirs, disk),
            0,
            (level + 1) as u8,
            disk,
        ),
        level + 1 == DAY_LEVEL ==> walk.has_listed(directories_in(dirs, disk), 0, disk),
{
    let below = directories_in(dirs, disk);
    assert(dirs.take(dirs.len() as int) =~= dirs);
    assert(dirs.skip(dirs.len() as int) =~= Seq::empty());
    assert(below.skip(0) =~= below);
    assert(below.take(0) =~= Seq::empty());
    assert(queued_at(Seq::empty(), level) =~= Seq::empty());
    assert(walk.queue =~= queued_at(below, (level + 1) as u8));
    if level + 1 < DAY_LEVEL {
        assert(queued_at(directories_in(Seq::empty(), disk), (level + 2) as u8) =~= Seq::empty());
        assert(walk.queue =~= queued_at(below.skip(0), (level + 1) as u8) + queued_at(
            directories_in(below.take(0), disk),
            (level + 2) as u8,
        ));
    } else {
        assert(walk.files =~= session_files_in(below.take(0), disk));
    }
}

/// A walk that has read some of the directories of the days has read all of
/// them after as many further directories as were left.
proof fn days_are_read(
    walk: ListingModel,
    days: Seq<Seq<char>>,
    done: int,
    disk: spec_fn(Seq<char>) -> Seq<EntryModel>,
)
    requires
        walk.has_listed(days, done, disk),
    ensures
        walk.run(disk, (days.len() - done) as nat).has_listed(days, days.len() as int, disk),
    decreases days.len() - done,
{
    if done < days.len() {
        let rest = queued_at(days.skip(done), DAY_LEVEL);
        assert(rest[0] == QueuedModel { path: days[done], level: DAY_LEVEL });
        let opened = walk.advance();
        assert(opened.queue =~= queued_at(days.skip(done + 1), DAY_LEVEL));
        reading_lists_files(opened, disk(days[done]));
        let after = walk.read_next(disk);
        assert(days.take(done + 1).drop_last() =~= days.take(done));
        assert(days.take(done + 1).last() == days[done]);
        assert(after.has_listed(days, done + 1, disk));
        days_are_read(after, days, done + 1, disk);
    }
}

/// A walk that is run to its end lists the store: once the directory of
/// the store, the years, the months and the days were read, no directory is
/// left to read, and the files found are exactly the session files in the
/// directories of the days, in their order.
pub proof fn complete_walk_lists_the_store(
    sessions_dir: Seq<char>,
    disk: spec_fn(Seq<char>) -> Seq<EntryModel>,
)
    ensures
        ({
            let count = 1 + year_directories(sessions_dir, disk).len() + month_directories(
                sessions_dir,
                disk,
            ).len() + day_directories(sessions_dir, disk).len();
            let end = ListingModel::start(sessions_dir).run(disk, count as nat);
            &&& end.queue.len() == 0
            &&& end.files == stored_sessions(sessions_dir, disk)
        }),
{
    let root = seq![sessions_dir];
    let years = year_directories(sessions_dir, disk);
    let months = month_directories(sessions_dir, disk);
    let days = day_directories(sessions_dir, disk);
    let start = ListingModel::start(sessions_dir);
    assert(root.skip(0) =~= root);
    assert(root.take(0) =~= Seq::empty());
    assert(start.queue =~= queued_at(root.skip(0), 0) + queued_at(
        directories_in(root.take(0), disk),
        1,
    ));
    assert(start.has_read(root, 0, 0, disk));
    level_is_read(start, root, 0, 0, disk);
    let after_root = start.run(disk, 1);
    next_level_begins(after_root, root, 0, disk);
    assert(directories_in(root, disk) =~= years) by {
        assert(root.drop_last() =~= Seq::empty());
        assert(directories_in(Seq::empty(), disk) =~= Seq::empty());
    }
    level_is_read(after_root, years, 0, 1, disk);
    let after_years = after_root.run(disk, years.len());
    next_level_begins(after_years, years, 1, disk);
    level_is_read(after_years, months, 0, 2, disk);
    let after_months = after_years.run(disk, months.len());
    next_level_begins(after_months, months, 2, disk);
    days_are_read(after_months, days, 0, disk);
    let end = after_months.run(disk, days.len());
    run_in_two_parts(start, disk, 1, years.len());
    run_in_two_parts(start, disk, 1 + years.len(), months.len());
    run_in_two_parts(start, disk, 1 + years.len() + months.len(), days.len());
    assert(days.skip(days.len() as int) =~= Seq::empty());
    assert(days.take(days.len() as int) =~= days);
    assert(end.queue =~= Seq::empty());
}

/// The walk that lists the files of all past sessions.
///
/// Directories are read in the order in which they were found, so the files
/// come out by year, month and day in the order in which the directories
/// list them.
#[derive(Debug)]
pub struct SessionListing {
    queue: Vec<QueuedDir>,
    reading: Option<u8>,
    files: Vec<String>,
}

impl View for SessionListing {
    type V = ListingModel;

    closed spec fn view(&self) -> ListingModel {
        ListingModel {
            queue: self.queue@.map_values(|d: QueuedDir| d@),
            reading: self.reading,
            files: text_views(self.files@),
        }
    }
}

impl SessionListing {
    /// The walk of the store below `sessions_dir`, before anything was read.
    pub fn new(sessions_dir: String) -> (walk: SessionListing)
        ensures
            walk@ == ListingModel::start(sessions_dir@),
    {
        let mut queue: Vec<QueuedDir> = Vec::new();
        queue.push(QueuedDir { path: sessions_dir, level: 0 });
        let walk = SessionListing { queue, reading: None, files: Vec::new() };
        assert(walk@.queue =~= ListingModel::start(sessions_dir@).queue);
        assert(walk@.files =~= Seq::empty());
        walk
    }

    /// Hands out the directory that is to be read next, or `None` when the
    /// walk is over. The entries told from now on count as found in that
    /// directory.
    pub fn next_directory(&mut self) -> (next: Option<String>)
        ensures
            final(self)@ == old(self)@.advance(),
            match next {
                Some(path) => old(self)@.queue.len() > 0 && path@ == old(self)@.queue[0].path,
                None => old(self)@.queue.len() == 0,
            },
    {
        if self.queue.len() == 0 {
            self.reading = None;
            return None;
        }
        let dir = self.queue.remove(0);
        self.reading = Some(dir.level);
        assert(self@.queue =~= old(self)@.queue.skip(1));
        Some(dir.path)
    }

    /// Tells the walk of `entry`, found in the directory handed out last.
    pub fn visit(&mut self, entry: WalkEntry)
        ensures
            final(self)@ == old(self)@.visit(entry@),
    {
        let level = match self.reading {
            Some(level) => level,
            None => {
                return ;
            },
        };
        if level < DAY_LEVEL {
            if entry.kind == EntryKind::Directory {
                self.queue.push(QueuedDir { path: entry.path, level: level + 1 });
                assert(self@.queue =~= old(self)@.queue.push(
                    QueuedModel { path: entry@.path, level: (level + 1) as u8 },
                ));
            }
        } else if level == DAY_LEVEL {
            let listed = match &entry.name {
                Some(name) => is_session_file_name(name.as_str()),
                None => false,
            };
            if listed {
                self.files.push(entry.path);
                assert(self@.files =~= old(self)@.files.push(entry@.path));
            }
        }
    }

    /// The session files found so far, in the order in which they were
    /// found.
    pub fn into_files(self) -> (files: Vec<String>)
        ensures
            text_views(files@) == self@.files,
    {
        self.files
    }
}

/// The mathematical value of a [`RolloutSearch`].
pub struct SearchModel {
    /// The end of the name of the file that is looked for.
    pub suffix: Seq<char>,
    /// The directories yet to be read, the next one last.
    pub stack: Seq<Seq<char>>,
    /// The file, once it is found.
    pub found: Option<Seq<char>>,
}

impl SearchModel {
    /// The search before anything was read.
    pub open spec fn start(sessions_dir: Seq<char>, session: Seq<char>) -> SearchModel {
        SearchModel { suffix: rollout_suffix(session), stack: seq![sessions_dir], found: None }
    }

    /// Whether the search is over: the file is found, or no directory is
    /// left.
    pub open spec fn is_over(self) -> bool {
        self.found is Some || self.stack.len() == 0
    }

    /// The search after the next directory was handed out.
    pub open spec fn advance(self) -> SearchModel {
        if self.is_over() {
            self
        } else {
            SearchModel { stack: self.stack.drop_last(), ..self }
        }
    }

    /// The search after it was told of `entry`: a directory is put on the
    /// stack, a file whose name ends as the search asks is the file found,
    /// and everything else is passed over. Once the file is found nothing
    /// changes any more.
    pub open spec fn visit(self, entry: EntryModel) -> SearchModel {
        if self.found is Some {
            self
        } else if entry.kind == EntryKind::Directory {
            SearchModel { stack: self.stack.push(entry.path), ..self }
        } else if self.matches(entry) {
            SearchModel { found: Some(entry.path), ..self }
        } else {
            self
        }
    }
}

impl SearchModel {
    /// The entry is a file whose name ends as the search asks.
    pub open spec fn matches(self, entry: EntryModel) -> bool {
        entry.kind == EntryKind::File && entry.name is Some && finishes_with(
            entry.name->0,
            self.suffix,
        )
    }

    /// The search after it was told of each of `entries` in turn.
    pub open spec fn visit_all(self, entries: Seq<EntryModel>) -> SearchModel
        decreases entries.len(),
    {
        if entries.len() == 0 {
            self
        } else {
            self.visit_all(entries.drop_last()).visit(entries.last())
        }
    }
}

/// Reading a directory takes the first file in it that the search asks
/// for: where the entry at position `first` is such a file and none before
/// it is, that entry is the file found, and the directories listed before
/// it were put on the stack. Where no entry is such a file, nothing is found
/// and all directories listed were put on the stack.
pub proof fn reading_takes_the_first_match(
    search: SearchModel,
    entries: Seq<EntryModel>,
    first: int,
)
    requires
        search.found is None,
        0 <= first <= entries.len(),
        forall|j: int| 0 <= j < first ==> !search.matches(#[trigger] entries[j]),
        first < entries.len() ==> search.matches(entries[first]),
    ensures
        search.visit_all(entries) == (SearchModel {
            stack: search.stack + subdirectories(entries.take(first)),
            found: if first < entries.len() {
                Some(entries[first].path)
            } else {
                None
            },
            ..search
        }),
    decreases entries.len(),
{
    let is_dir = |e: EntryModel| e.kind == EntryKind::Directory;
    if entries.len() == 0 {
        reveal(Seq::filter);
        assert(entries.take(first) =~= Seq::empty());
        assert(subdirectories(Seq::empty()) =~= Seq::empty());
        assert(search.stack + subdirectories(entries.take(first)) =~= search.stack);
    } else {
        let front = entries.drop_last();
        let last = entries.last();
        let before = search.visit_all(front);
        if first < front.len() {
            reading_takes_the_first_match(search, front, first);
            assert(front.take(first) =~= entries.take(first));
        } else {
            reading_takes_the_first_match(search, front, front.len() as int);
            assert(front.take(front.len() as int) =~= front);
            if first == front.len() {
                assert(entries.take(first) =~= front);
            } else {
                filter_of_push(front, last, is_dir);
                assert(front.push(last) =~= entries);
                assert(entries.take(first) =~= entries);
                if last.kind == EntryKind::Directory {
                    assert(subdirectories(entries) =~= subdirectories(front).push(last.path));
                    assert(before.visit(last).stack =~= search.stack + subdirectories(entries));
                }
            }
        }
    }
}

/// The first file found stays the file found.
pub proof fn found_file_is_kept(search: SearchModel, entry: EntryModel)
    requires
        search.found is Some,
    ensures
        search.visit(entry) == search,
        search.advance() == search,
        search.is_over(),
{
}

/// The search for the file that records one session.
///
/// The directory found last is read first.
#[derive(Debug)]
pub struct RolloutSearch {
    suffix: String,
    stack: Vec<String>,
    found: Option<String>,
}

impl View for RolloutSearch {
    type V = SearchModel;

    closed spec fn view(&self) -> SearchModel {
        SearchModel {
            suffix: self.suffix@,
            stack: text_views(self.stack@),
            found: match self.found {
                Some(f) => Some(f@),
                None => None,
            },
        }
    }
}

impl RolloutSearch {
    /// The search below `sessions_dir` for the file of the session
    /// `session`, before anything was read.
    pub fn new(sessions_dir: String, session: &str) -> (search: RolloutSearch)
        ensures
            search@ == SearchModel::start(sessions_dir@, session@),
    {
        let mut stack: Vec<String> = Vec::new();
        stack.push(sessions_dir);
        let search = RolloutSearch { suffix: rollout_suffix_of(session), stack, found: None };
        assert(search@.stack =~= seq![sessions_dir@]);
        search
    }

    /// Hands out the directory that is to be read next, or `None` when the
    /// search is over.
    pub fn next_directory(&mut self) -> (next: Option<String>)
        ensures
            final(self)@ == old(self)@.advance(),
            match next {
                Some(dir) => !old(self)@.is_over() && dir@ == old(self)@.stack.last(),
                None => old(self)@.is_over(),
            },
    {
        if self.found.is_some() {
            return None;
        }
        let next = self.stack.pop();
        proof {
            if next is Some {
                assert(self@.stack =~= old(self)@.stack.drop_last());
            } else {
                assert(self@.stack =~= old(self)@.stack);
            }
        }
        next
    }

    /// Tells the search of `entry`, found in the directory handed out last.
    pub fn visit(&mut self, entry: WalkEntry)
        ensures
            final(self)@ == old(self)@.visit(entry@),
    {
        if self.found.is_some() {
            return ;
        }
        if entry.kind == EntryKind::Directory {
            self.stack.push(entry.path);
            assert(self@.stack =~= old(self)@.stack.push(entry@.path));
        } else if entry.kind == EntryKind::File {
            let matches = match &entry.name {
                Some(name) => ends_with(&chars_of(name.as_str()), &chars_of(self.suffix.as_str())),
                None => false,
            };
            if matches {
                self.found = Some(entry.path);
            }
        }
    }

    /// The file found, if one was found.
    pub fn into_found(self) -> (found: Option<String>)
        ensures
            match found {
                Some(f) => self@.found == Some(f@),
                None => self@.found is None,
            },
    {
        self.found
    }
}

} // verus!
