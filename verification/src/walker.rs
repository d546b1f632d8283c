//! The walk over the asset directory, as a machine.
//!
//! The walk itself never touches the disk. It says what is to be done next
//! (list a directory, read a file, rename a file) and is told how that went.
//! Directories are visited in the order in which they were found. Every file
//! is read once, renamed once to its fingerprinted path, and then entered in
//! the table under its original path. Directories are never renamed.

use crate::asset_table::AssetTable;
use crate::fingerprint::fingerprint_of;
use crate::path::{fingerprinted_path_of, generate_cache_busted_path, is_fingerprinted_form};
use crate::text::{has_prefix, starts_with, texts_of};
use std::collections::VecDeque;
use vstd::prelude::*;

verus! {

/// One entry of a directory listing.
#[derive(Clone, Debug)]
pub struct WalkEntry {
    /// The path of the entry, the listed directory's path included.
    pub path: String,
    /// Whether the entry is a directory.
    pub is_dir: bool,
}

/// What the walk asks for next.
#[derive(Clone, Debug)]
pub enum WalkAction {
    /// List the entries of this directory.
    ReadDir(String),
    /// Read the whole of this file.
    ReadFile(String),
    /// Rename the file `from` to `to`.
    Rename { from: String, to: String },
    /// Nothing: every directory was listed and every file renamed.
    Done,
}

/// How the action that the walk asked for went.
#[derive(Clone, Debug)]
pub enum WalkEvent {
    /// The entries of the directory that was to be listed.
    Listing(Vec<WalkEntry>),
    /// The bytes of the file that was to be read.
    Contents(Vec<u8>),
    /// The file was renamed.
    Renamed,
}

/// Why the walk refused an event.
#[derive(Clone, Copy, Debug, PartialEq, Eq, Structural)]
pub enum WalkError {
    /// The event does not answer the action that the walk asked for.
    UnexpectedEvent,
    /// The listing names an entry whose path does not start with the path
    /// of the directory that was to be listed.
    StrayEntry,
}

/// A directory entry as plain values.
pub struct EntryView {
    pub path: Seq<char>,
    pub is_dir: bool,
}

/// An action as plain values.
pub enum ActionView {
    ReadDir(Seq<char>),
    ReadFile(Seq<char>),
    Rename { from: Seq<char>, to: Seq<char> },
    Done,
}

/// An event as plain values.
pub enum EventView {
    Listing(Seq<EntryView>),
    Contents(Seq<u8>),
    Renamed,
}

/// The state of a walk as plain values.
pub struct WalkView {
    /// The directories found and not yet listed, the next one first.
    pub dirs: Seq<Seq<char>>,
    /// The entries of the listing in hand that were not looked at yet.
    pub rest: Seq<EntryView>,
    /// The action that the walk waits for.
    pub pending: ActionView,
    /// The files renamed so far: original path to fingerprinted path.
    pub table: Map<Seq<char>, Seq<char>>,
}

/// The entries of a listing as plain values.
pub open spec fn entries_of(entries: Seq<WalkEntry>) -> Seq<EntryView> {
    Seq::new(entries.len(), |i: int| entries[i]@)
}

/// Where a walk stands once the entries `rest` are looked at: the
/// directories among them join the queue until a file is met, which is to be
/// read next. When no entry is left the next directory of the queue is to be
/// listed, and the walk is done when there is none.
pub open spec fn settle(
    dirs: Seq<Seq<char>>,
    rest: Seq<EntryView>,
    table: Map<Seq<char>, Seq<char>>,
) -> WalkView
    decreases rest.len(),
{
    if rest.len() == 0 {
        if dirs.len() == 0 {
            WalkView { dirs, rest, pending: ActionView::Done, table }
        } else {
            WalkView { dirs: dirs.drop_first(), rest, pending: ActionView::ReadDir(dirs[0]), table }
        }
    } else if rest[0].is_dir {
        settle(dirs.push(rest[0].path), rest.drop_first(), table)
    } else {
        WalkView {
            dirs,
            rest: rest.drop_first(),
            pending: ActionView::ReadFile(rest[0].path),
            table,
        }
    }
}

/// Whether the path of every entry starts with the path `dir`, as the
/// entries of the directory `dir` do.
pub open spec fn all_extend(found: Seq<EntryView>, dir: Seq<char>) -> bool {
    forall|i: int| 0 <= i < found.len() ==> has_prefix(#[trigger] found[i].path, dir)
}

/// Whether every text starts with `dir`.
pub open spec fn all_under(paths: Seq<Seq<char>>, dir: Seq<char>) -> bool {
    forall|i: int| 0 <= i < paths.len() ==> has_prefix(#[trigger] paths[i], dir)
}

/// What starts with a path that starts with `root` starts with `root`.
pub proof fn lemma_prefix_of_prefix(path: Seq<char>, dir: Seq<char>, root: Seq<char>)
    requires
        has_prefix(path, dir),
        has_prefix(dir, root),
    ensures
        has_prefix(path, root),
{
    assert(path.subrange(0, root.len() as int) =~= path.subrange(0, dir.len() as int).subrange(
        0,
        root.len() as int,
    ));
}

impl WalkView {
    /// A walk that is about to list `root`.
    pub open spec fn start(root: Seq<char>) -> WalkView {
        WalkView {
            dirs: Seq::empty(),
            rest: Seq::empty(),
            pending: ActionView::ReadDir(root),
            table: Map::empty(),
        }
    }

    /// Whether `event` is of the kind that answers the action that the walk
    /// waits for.
    pub open spec fn answered_by(self, event: EventView) -> bool {
        match (self.pending, event) {
            (ActionView::ReadDir(_), EventView::Listing(_)) => true,
            (ActionView::ReadFile(_), EventView::Contents(_)) => true,
            (ActionView::Rename { .. }, EventView::Renamed) => true,
            _ => false,
        }
    }

    /// Whether the walk takes `event`: it answers the action that the walk
    /// waits for, and a listing names entries of the listed directory only.
    pub open spec fn accepts(self, event: EventView) -> bool {
        match (self.pending, event) {
            (ActionView::ReadDir(dir), EventView::Listing(found)) => all_extend(found, dir),
            _ => self.answered_by(event),
        }
    }

    /// The walk after an event that it accepts; the walk itself after any
    /// other.
    pub open spec fn after(self, event: EventView) -> WalkView {
        match (self.pending, event) {
            (ActionView::ReadDir(dir), EventView::Listing(found)) => if all_extend(found, dir) {
                settle(self.dirs, found, self.table)
            } else {
                self
            },
            (ActionView::ReadFile(path), EventView::Contents(data)) => WalkView {
                dirs: self.dirs,
                rest: self.rest,
                pending: ActionView::Rename {
                    from: path,
                    to: fingerprinted_path_of(path, fingerprint_of(data)),
                },
                table: self.table,
            },
            (ActionView::Rename { from, to }, EventView::Renamed) => settle(
                self.dirs,
                self.rest,
                self.table.insert(from, to),
            ),
            _ => self,
        }
    }

    /// Whether the walk is over.
    pub open spec fn finished(self) -> bool {
        self.pending is Done
    }

    /// What holds of a walk at every step: each file in the table stands
    /// under its fingerprinted path, and so will the file that is being
    /// renamed; a directory is listed only when the listing before it is used
    /// up; and a walk that is over has nothing left to visit.
    pub open spec fn inv(self) -> bool {
        &&& forall|path: Seq<char>| #[trigger]
            self.table.contains_key(path) ==> is_fingerprinted_form(path, self.table[path])
        &&& self.pending matches ActionView::Rename { from, to } ==> is_fingerprinted_form(from, to)
        &&& self.pending is ReadDir ==> self.rest.len() == 0
        &&& self.pending is Done ==> self.rest.len() == 0 && self.dirs.len() == 0
    }

    /// Whether every path that the walk holds starts with `root`: the paths
    /// in the table, the directories that wait, the entries in hand, and the
    /// path that the pending action is about.
    pub open spec fn lies_under(self, root: Seq<char>) -> bool {
        &&& forall|path: Seq<char>| #[trigger] self.table.contains_key(path) ==> has_prefix(path, root)
        &&& all_under(self.dirs, root)
        &&& all_extend(self.rest, root)
        &&& match self.pending {
            ActionView::ReadDir(dir) => has_prefix(dir, root),
            ActionView::ReadFile(path) => has_prefix(path, root),
            ActionView::Rename { from, to } => has_prefix(from, root),
            ActionView::Done => true,
        }
    }
}

/// Looking at the entries in hand keeps every path under `root`.
pub proof fn lemma_settle_lies_under(
    dirs: Seq<Seq<char>>,
    rest: Seq<EntryView>,
    table: Map<Seq<char>, Seq<char>>,
    root: Seq<char>,
)
    requires
        all_under(dirs, root),
        all_extend(rest, root),
        forall|path: Seq<char>| #[trigger] table.contains_key(path) ==> has_prefix(path, root),
    ensures
        settle(dirs, rest, table).lies_under(root),
    decreases rest.len(),
{
    if rest.len() == 0 {
        if dirs.len() > 0 {
            assert(has_prefix(dirs[0], root));
            assert forall|i: int| 0 <= i < dirs.drop_first().len() implies has_prefix(
                #[trigger] dirs.drop_first()[i],
                root,
            ) by {
                assert(dirs.drop_first()[i] == dirs[i + 1]);
            }
        }
    } else {
        assert(has_prefix(rest[0].path, root));
        assert forall|i: int| 0 <= i < rest.drop_first().len() implies has_prefix(
            #[trigger] rest.drop_first()[i].path,
            root,
        ) by {
            assert(rest.drop_first()[i] == rest[i + 1]);
        }
        if rest[0].is_dir {
            assert forall|i: int| 0 <= i < dirs.push(rest[0].path).len() implies has_prefix(
                #[trigger] dirs.push(rest[0].path)[i],
                root,
            ) by {
                if i < dirs.len() {
                    assert(dirs.push(rest[0].path)[i] == dirs[i]);
                }
            }
            lemma_settle_lies_under(dirs.push(rest[0].path), rest.drop_first(), table, root);
        }
    }
}

/// A walk whose paths all start with `root` stays so at every step: the
/// table of a walk from `root` holds paths under `root` only.
pub proof fn lemma_step_lies_under(walk: WalkView, event: EventView, root: Seq<char>)
    requires
        walk.lies_under(root),
    ensures
        walk.after(event).lies_under(root),
{
    match (walk.pending, event) {
        (ActionView::ReadDir(dir), EventView::Listing(found)) => {
            if all_extend(found, dir) {
                assert forall|i: int| 0 <= i < found.len() implies has_prefix(
                    #[trigger] found[i].path,
                    root,
                ) by {
                    lemma_prefix_of_prefix(found[i].path, dir, root);
                }
                lemma_settle_lies_under(walk.dirs, found, walk.table, root);
            }
        },
        (ActionView::Rename { from, to }, EventView::Renamed) => {
            lemma_settle_lies_under(walk.dirs, walk.rest, walk.table.insert(from, to), root);
        },
        _ => {},
    }
}

/// Looking at the entries in hand changes no table entry, and leaves the
/// walk waiting for a listing, for a file, or for nothing.
pub proof fn lemma_settle(
    dirs: Seq<Seq<char>>,
    rest: Seq<EntryView>,
    table: Map<Seq<char>, Seq<char>>,
)
    ensures
        settle(dirs, rest, table).table == table,
        !(settle(dirs, rest, table).pending is Rename),
        settle(dirs, rest, table).pending is ReadDir ==> settle(dirs, rest, table).rest.len() == 0,
        settle(dirs, rest, table).pending is Done ==> settle(dirs, rest, table).rest.len() == 0
            && settle(dirs, rest, table).dirs.len() == 0,
    decreases rest.len(),
{
    if rest.len() > 0 && rest[0].is_dir {
        lemma_settle(dirs.push(rest[0].path), rest.drop_first(), table);
    }
}

/// What holds of a walk at one step holds at the next, whatever the event:
/// the table never holds a file under anything but its fingerprinted path.
pub proof fn lemma_step_keeps_inv(walk: WalkView, event: EventView)
    requires
        walk.inv(),
    ensures
        walk.after(event).inv(),
{
    match (walk.pending, event) {
        (ActionView::ReadDir(_), EventView::Listing(found)) => {
            lemma_settle(walk.dirs, found, walk.table);
        },
        (ActionView::ReadFile(path), EventView::Contents(data)) => {
            crate::fingerprint::lemma_fingerprint_shape(data);
            assert(is_fingerprinted_form(path, fingerprinted_path_of(path, fingerprint_of(data))));
        },
        (ActionView::Rename { from, to }, EventView::Renamed) => {
            lemma_settle(walk.dirs, walk.rest, walk.table.insert(from, to));
        },
        _ => {},
    }
}

/// A walk starts with an empty table and nothing in hand.
pub proof fn lemma_start_inv(root: Seq<char>)
    ensures
        WalkView::start(root).inv(),
        WalkView::start(root).lies_under(root),
{
    assert(root.subrange(0, root.len() as int) =~= root);
}

/// The path to which a file is renamed when the disk holds `disk[path]`
/// under `path`.
pub open spec fn busted_path(path: Seq<char>, disk: Map<Seq<char>, Seq<u8>>) -> Seq<char> {
    fingerprinted_path_of(path, fingerprint_of(disk[path]))
}

/// How many of the entries are files.
pub open spec fn file_count(rest: Seq<EntryView>) -> nat
    decreases rest.len(),
{
    if rest.len() == 0 {
        0
    } else if rest[0].is_dir {
        file_count(rest.drop_first())
    } else {
        1 + file_count(rest.drop_first())
    }
}

/// The queue once the directories among the entries have joined it, in
/// their order.
pub open spec fn queue_with(dirs: Seq<Seq<char>>, rest: Seq<EntryView>) -> Seq<Seq<char>>
    decreases rest.len(),
{
    if rest.len() == 0 {
        dirs
    } else if rest[0].is_dir {
        queue_with(dirs.push(rest[0].path), rest.drop_first())
    } else {
        queue_with(dirs, rest.drop_first())
    }
}

/// The table once the files among the entries are entered, each under its
/// fingerprinted path.
pub open spec fn table_with(
    table: Map<Seq<char>, Seq<char>>,
    rest: Seq<EntryView>,
    disk: Map<Seq<char>, Seq<u8>>,
) -> Map<Seq<char>, Seq<char>>
    decreases rest.len(),
{
    if rest.len() == 0 {
        table
    } else if rest[0].is_dir {
        table_with(table, rest.drop_first(), disk)
    } else {
        table_with(
            table.insert(rest[0].path, busted_path(rest[0].path, disk)),
            rest.drop_first(),
            disk,
        )
    }
}

/// What is asked for while the entries are dealt with: for each file, in
/// the order of the entries, to read it and then to rename it. Nothing is
/// asked for a directory.
pub open spec fn actions_for(rest: Seq<EntryView>, disk: Map<Seq<char>, Seq<u8>>) -> Seq<
    ActionView,
>
    decreases rest.len(),
{
    if rest.len() == 0 {
        Seq::empty()
    } else if rest[0].is_dir {
        actions_for(rest.drop_first(), disk)
    } else {
        seq![
            ActionView::ReadFile(rest[0].path),
            ActionView::Rename { from: rest[0].path, to: busted_path(rest[0].path, disk) },
        ] + actions_for(rest.drop_first(), disk)
    }
}

/// The event that answers what the walk waits for, on a disk that holds
/// `disk[path]` under each file `path`, while the walk deals with files.
pub open spec fn file_answer(walk: WalkView, disk: Map<Seq<char>, Seq<u8>>) -> EventView {
    match walk.pending {
        ActionView::ReadFile(path) => EventView::Contents(disk[path]),
        _ => EventView::Renamed,
    }
}

/// The walk after `steps` answers about files.
pub open spec fn after_answers(
    walk: WalkView,
    disk: Map<Seq<char>, Seq<u8>>,
    steps: nat,
) -> WalkView
    decreases steps,
{
    if steps == 0 {
        walk
    } else {
        after_answers(walk.after(file_answer(walk, disk)), disk, (steps - 1) as nat)
    }
}

/// What the walk asks for in the course of `steps` answers about files.
pub open spec fn asked_for(walk: WalkView, disk: Map<Seq<char>, Seq<u8>>, steps: nat) -> Seq<
    ActionView,
>
    decreases steps,
{
    if steps == 0 {
        Seq::empty()
    } else {
        seq![walk.pending] + asked_for(
            walk.after(file_answer(walk, disk)),
            disk,
            (steps - 1) as nat,
        )
    }
}

/// A walk that has entries in hand deals with all of them in two steps for
/// each file: every file is read once and renamed once to its fingerprinted
/// path, in the order of the entries, and stands in the table afterwards;
/// every directory joins the queue and is never renamed. The walk then
/// stands where a walk with no entry in hand stands.
pub proof fn lemma_entries_dealt_with(
    dirs: Seq<Seq<char>>,
    rest: Seq<EntryView>,
    table: Map<Seq<char>, Seq<char>>,
    disk: Map<Seq<char>, Seq<u8>>,
)
    ensures
        after_answers(settle(dirs, rest, table), disk, 2 * file_count(rest)) == settle(
            queue_with(dirs, rest),
            Seq::empty(),
            table_with(table, rest, disk),
        ),
        asked_for(settle(dirs, rest, table), disk, 2 * file_count(rest)) == actions_for(
            rest,
            disk,
        ),
    decreases rest.len(),
{
    let start = settle(dirs, rest, table);
    if rest.len() == 0 {
        assert(rest =~= Seq::<EntryView>::empty());
    } else if rest[0].is_dir {
        lemma_entries_dealt_with(dirs.push(rest[0].path), rest.drop_first(), table, disk);
    } else {
        let path = rest[0].path;
        let left = rest.drop_first();
        let busted = busted_path(path, disk);
        let renaming = start.after(file_answer(start, disk));
        assert(renaming.pending == ActionView::Rename { from: path, to: busted });
        let next = renaming.after(file_answer(renaming, disk));
        assert(next == settle(dirs, left, table.insert(path, busted)));
        lemma_entries_dealt_with(dirs, left, table.insert(path, busted), disk);
        let steps = 2 * file_count(rest);
        assert(steps == 2 * file_count(left) + 2);
        assert(after_answers(start, disk, steps) == after_answers(
            renaming,
            disk,
            (steps - 1) as nat,
        ));
        assert(after_answers(renaming, disk, (steps - 1) as nat) == after_answers(
            next,
            disk,
            (steps - 2) as nat,
        ));
        assert(asked_for(start, disk, steps) == seq![start.pending] + asked_for(
            renaming,
            disk,
            (steps - 1) as nat,
        ));
        assert(asked_for(renaming, disk, (steps - 1) as nat) == seq![renaming.pending]
            + asked_for(next, disk, (steps - 2) as nat));
        assert(asked_for(start, disk, steps) =~= actions_for(rest, disk));
    }
}

/// A listing is dealt with as [`lemma_entries_dealt_with`] says: once the
/// walk is told the entries of the directory that it asked for, every file
/// among them is read, renamed and entered in the table, and every
/// directory among them joins the queue.
pub proof fn lemma_listing_dealt_with(
    walk: WalkView,
    found: Seq<EntryView>,
    disk: Map<Seq<char>, Seq<u8>>,
)
    requires
        walk.pending is ReadDir,
        walk.accepts(EventView::Listing(found)),
    ensures
        after_answers(walk.after(EventView::Listing(found)), disk, 2 * file_count(found))
            == settle(
            queue_with(walk.dirs, found),
            Seq::empty(),
            table_with(walk.table, found, disk),
        ),
        asked_for(walk.after(EventView::Listing(found)), disk, 2 * file_count(found))
            == actions_for(found, disk),
{
    lemma_entries_dealt_with(walk.dirs, found, walk.table, disk);
}

/// A disk as the walk sees it: what each directory lists and what each file
/// holds.
pub struct DiskView {
    pub listings: Map<Seq<char>, Seq<EntryView>>,
    pub contents: Map<Seq<char>, Seq<u8>>,
}

impl DiskView {
    /// Whether every directory lists entries of its own only: the path of
    /// each entry starts with the path of the directory.
    pub open spec fn lists_its_own(self) -> bool {
        forall|dir: Seq<char>| #[trigger] all_extend(self.listings[dir], dir)
    }
}

/// The queue and the table after the first `rounds` directories of the
/// queue were listed, breadth first: the directories that a listing names
/// wait behind those that were found before, and the files that it names
/// are entered in the table.
pub open spec fn breadth_first(
    dirs: Seq<Seq<char>>,
    table: Map<Seq<char>, Seq<char>>,
    disk: DiskView,
    rounds: nat,
) -> (Seq<Seq<char>>, Map<Seq<char>, Seq<char>>)
    decreases rounds,
{
    if rounds == 0 || dirs.len() == 0 {
        (dirs, table)
    } else {
        let found = disk.listings[dirs[0]];
        breadth_first(
            queue_with(dirs.drop_first(), found),
            table_with(table, found, disk.contents),
            disk,
            (rounds - 1) as nat,
        )
    }
}

/// The walk after `rounds` directories: each time the walk asks for a
/// listing it is told what the disk lists, and then what the disk holds for
/// each file that it asks for.
pub open spec fn after_rounds(walk: WalkView, disk: DiskView, rounds: nat) -> WalkView
    decreases rounds,
{
    if rounds == 0 {
        walk
    } else {
        match walk.pending {
            ActionView::ReadDir(dir) => {
                let found = disk.listings[dir];
                after_rounds(
                    after_answers(
                        walk.after(EventView::Listing(found)),
                        disk.contents,
                        2 * file_count(found),
                    ),
                    disk,
                    (rounds - 1) as nat,
                )
            },
            _ => walk,
        }
    }
}

/// The walk visits the disk breadth first: after any number of directories
/// the walk stands where the breadth-first traversal stands, with the same
/// directories left to list and the same table.
pub proof fn lemma_walk_is_breadth_first(
    dirs: Seq<Seq<char>>,
    table: Map<Seq<char>, Seq<char>>,
    disk: DiskView,
    rounds: nat,
)
    requires
        disk.lists_its_own(),
    ensures
        after_rounds(settle(dirs, Seq::empty(), table), disk, rounds) == settle(
            breadth_first(dirs, table, disk, rounds).0,
            Seq::empty(),
            breadth_first(dirs, table, disk, rounds).1,
        ),
    decreases rounds,
{
    let walk = settle(dirs, Seq::<EntryView>::empty(), table);
    if rounds > 0 && dirs.len() > 0 {
        let found = disk.listings[dirs[0]];
        assert(all_extend(disk.listings[dirs[0]], dirs[0]));
        lemma_listing_dealt_with(walk, found, disk.contents);
        lemma_walk_is_breadth_first(
            queue_with(dirs.drop_first(), found),
            table_with(table, found, disk.contents),
            disk,
            (rounds - 1) as nat,
        );
    }
}

/// A walk from `root` that has listed every directory which the
/// breadth-first traversal from `root` finds is over, and its table is the
/// table of that traversal.
pub proof fn lemma_full_walk(root: Seq<char>, disk: DiskView, rounds: nat)
    requires
        disk.lists_its_own(),
        breadth_first(seq![root], Map::empty(), disk, rounds).0.len() == 0,
    ensures
        after_rounds(WalkView::start(root), disk, rounds).finished(),
        after_rounds(WalkView::start(root), disk, rounds).table == breadth_first(
            seq![root],
            Map::empty(),
            disk,
            rounds,
        ).1,
{
    lemma_walk_is_breadth_first(seq![root], Map::empty(), disk, rounds);
    assert(seq![root].drop_first() =~= Seq::<Seq<char>>::empty());
    assert(settle(seq![root], Seq::<EntryView>::empty(), Map::empty()) == WalkView::start(root));
}

impl WalkEntry {
    /// The entry as plain values.
    pub open spec fn view(&self) -> EntryView {
        EntryView { path: self.path@, is_dir: self.is_dir }
    }
}

impl WalkAction {
    /// The action as plain values.
    pub open spec fn view(&self) -> ActionView {
        match self {
            WalkAction::ReadDir(dir) => ActionView::ReadDir(dir@),
            WalkAction::ReadFile(path) => ActionView::ReadFile(path@),
            WalkAction::Rename { from, to } => ActionView::Rename { from: from@, to: to@ },
            WalkAction::Done => ActionView::Done,
        }
    }

    /// A copy of the action.
    pub fn duplicate(&self) -> (copy: WalkAction)
        ensures
            copy@ == self@,
    {
        match self {
            WalkAction::ReadDir(dir) => WalkAction::ReadDir(dir.clone()),
            WalkAction::ReadFile(path) => WalkAction::ReadFile(path.clone()),
            WalkAction::Rename { from, to } => WalkAction::Rename {
                from: from.clone(),
                to: to.clone(),
            },
            WalkAction::Done => WalkAction::Done,
        }
    }
}

impl WalkEvent {
    /// The event as plain values.
    pub open spec fn view(&self) -> EventView {
        match self {
            WalkEvent::Listing(found) => EventView::Listing(entries_of(found@)),
            WalkEvent::Contents(data) => EventView::Contents(data@),
            WalkEvent::Renamed => EventView::Renamed,
        }
    }
}

/// A walk over an asset directory.
pub struct AssetWalk {
    root: String,
    queue: VecDeque<String>,
    entries: Vec<WalkEntry>,
    cursor: usize,
    pending: WalkAction,
    table: AssetTable,
}

impl AssetWalk {
    /// The walk as plain values.
    pub closed spec fn view(&self) -> WalkView {
        WalkView {
            dirs: texts_of(self.queue@),
            rest: entries_of(self.entries@).skip(self.cursor as int),
            pending: self.pending@,
            table: self.table@,
        }
    }

    /// The directory at which the walk started.
    pub closed spec fn root(&self) -> Seq<char> {
        self.root@
    }

    /// What every walk keeps.
    pub closed spec fn wf(&self) -> bool {
        &&& self.table.wf()
        &&& self.cursor <= self.entries@.len()
        &&& self@.inv()
        &&& self@.lies_under(self.root())
    }

    /// A walk is well-formed only in states in which [`WalkView::inv`]
    /// holds and every path lies under the directory at which the walk
    /// started.
    pub proof fn lemma_wf_inv(&self)
        requires
            self.wf(),
        ensures
            self@.inv(),
            self@.lies_under(self.root()),
    {
    }

    /// A walk that is about to list the directory `root`.
    pub fn new(root: &str) -> (walk: AssetWalk)
        ensures
            walk.wf(),
            walk.root() == root@,
            walk@ == WalkView::start(root@),
    {
        let walk = AssetWalk {
            root: root.to_owned(),
            queue: VecDeque::new(),
            entries: Vec::new(),
            cursor: 0,
            pending: WalkAction::ReadDir(root.to_owned()),
            table: AssetTable::new(),
        };
        assert(walk@.dirs =~= Seq::<Seq<char>>::empty());
        assert(walk@.rest =~= Seq::<EntryView>::empty());
        proof {
            lemma_start_inv(root@);
        }
        walk
    }

    /// Tests whether the path of every entry starts with `dir`.
    fn entries_extend(found: &Vec<WalkEntry>, dir: &str) -> (all: bool)
        ensures
            all == all_extend(entries_of(found@), dir@),
    {
        let mut i: usize = 0;
        while i < found.len()
            invariant
                i <= found@.len(),
                forall|j: int|
                    0 <= j < i ==> has_prefix(#[trigger] entries_of(found@)[j].path, dir@),
            decreases found@.len() - i,
        {
            if !starts_with(found[i].path.as_str(), dir) {
                assert(!has_prefix(entries_of(found@)[i as int].path, dir@));
                return false;
            }
            i += 1;
        }
        true
    }

    /// The directory at which the walk started.
    pub fn root_directory(&self) -> (root: &str)
        ensures
            root@ == self.root(),
    {
        self.root.as_str()
    }

    /// The action that the walk waits for.
    pub fn pending(&self) -> (action: WalkAction)
        ensures
            action@ == self@.pending,
    {
        self.pending.duplicate()
    }

    /// Whether the walk is over.
    pub fn is_finished(&self) -> (over: bool)
        ensures
            over == self@.finished(),
    {
        match &self.pending {
            WalkAction::Done => true,
            _ => false,
        }
    }

    /// Looks at the entries in hand until one asks for an action.
    fn advance(&mut self)
        requires
            old(self).cursor <= old(self).entries@.len(),
        ensures
            final(self)@ == settle(old(self)@.dirs, old(self)@.rest, old(self)@.table),
            final(self).table == old(self).table,
            final(self).root == old(self).root,
            final(self).cursor <= final(self).entries@.len(),
    {
        let ghost wanted = settle(self@.dirs, self@.rest, self@.table);
        while self.cursor < self.entries.len()
            invariant
                self.cursor <= self.entries@.len(),
                self.table == old(self).table,
                self.root == old(self).root,
                wanted == settle(old(self)@.dirs, old(self)@.rest, old(self)@.table),
                wanted == settle(self@.dirs, self@.rest, self@.table),
            decreases self.entries@.len() - self.cursor,
        {
            let ghost dirs = self@.dirs;
            let ghost rest = self@.rest;
            let is_dir = self.entries[self.cursor].is_dir;
            let path = self.entries[self.cursor].path.clone();
            assert(rest[0] == self.entries@[self.cursor as int]@);
            if is_dir {
                self.queue.push_back(path);
                self.cursor += 1;
                assert(self@.dirs =~= dirs.push(rest[0].path));
                assert(self@.rest =~= rest.drop_first());
            } else {
                self.pending = WalkAction::ReadFile(path);
                self.cursor += 1;
                assert(self@.rest =~= rest.drop_first());
                assert(self@.dirs == dirs);
                assert(self@.pending == ActionView::ReadFile(rest[0].path));
                assert(self@ == settle(dirs, rest, self@.table));
                return;
            }
        }
        let ghost dirs = self@.dirs;
        assert(self@.rest.len() == 0);
        match self.queue.pop_front() {
            Some(dir) => {
                self.pending = WalkAction::ReadDir(dir);
                assert(self@.dirs =~= dirs.drop_first());
            },
            None => {
                self.pending = WalkAction::Done;
                assert(self@.dirs =~= dirs);
            },
        }
    }

    /// Takes the answer to the pending action and says what is to be done
    /// next. An event that does not answer the pending action is refused and
    /// changes nothing, and so is a listing that names an entry whose path
    /// does not start with the path of the listed directory.
    pub fn step(&mut self, event: WalkEvent) -> (next: Result<WalkAction, WalkError>)
        requires
            old(self).wf(),
        ensures
            final(self).wf(),
            final(self).root() == old(self).root(),
            match next {
                Ok(action) => {
                    &&& old(self)@.accepts(event@)
                    &&& final(self)@ == old(self)@.after(event@)
                    &&& action@ == final(self)@.pending
                },
                Err(error) => {
                    &&& !old(self)@.accepts(event@)
                    &&& final(self)@ == old(self)@
                    &&& error == if old(self)@.answered_by(event@) {
                        WalkError::StrayEntry
                    } else {
                        WalkError::UnexpectedEvent
                    }
                },
            },
    {
        proof {
            lemma_step_keeps_inv(self@, event@);
            lemma_step_lies_under(self@, event@, self.root());
        }
        match event {
            WalkEvent::Listing(found) => {
                match &self.pending {
                    WalkAction::ReadDir(dir) => {
                        if !Self::entries_extend(&found, dir.as_str()) {
                            return Err(WalkError::StrayEntry);
                        }
                    },
                    _ => {
                        return Err(WalkError::UnexpectedEvent);
                    },
                }
                self.entries = found;
                self.cursor = 0;
                assert(self@.rest =~= entries_of(found@));
                self.advance();
            },
            WalkEvent::Contents(data) => {
                let from = match &self.pending {
                    WalkAction::ReadFile(path) => path.clone(),
                    _ => {
                        return Err(WalkError::UnexpectedEvent);
                    },
                };
                let to = generate_cache_busted_path(from.as_str(), data.as_slice());
                self.pending = WalkAction::Rename { from, to };
            },
            WalkEvent::Renamed => {
                let (from, to) = match &self.pending {
                    WalkAction::Rename { from, to } => (from.clone(), to.clone()),
                    _ => {
                        return Err(WalkError::UnexpectedEvent);
                    },
                };
                self.table.insert(from, to);
                self.advance();
            },
        }
        Ok(self.pending.duplicate())
    }

    /// Hands over the table of a walk that is over; `None` for a walk that
    /// is not.
    pub fn into_table(self) -> (table: Option<AssetTable>)
        requires
            self.wf(),
        ensures
            table is Some <==> self@.finished(),
            table matches Some(found) ==> found.wf() && found@ == self@.table,
            table matches Some(found) ==> forall|path: Seq<char>| #[trigger]
                found@.contains_key(path) ==> has_prefix(path, self.root()),
    {
        match &self.pending {
            WalkAction::Done => Some(self.table),
            _ => None,
        }
    }
}

} // verus!
