//! The task store: the lines of the todo file held in memory, and the
//! operations that read and change them.

use crate::text::{
    decimal, decimal_spec, index_spec, lines_of, parse_index, split_lines, views,
};
use vstd::prelude::*;
use vstd::string::*;

verus! {

/// The marker of an open task.
pub open spec fn open_marker() -> Seq<char> {
    seq!['[', ' ', ']', ' ']
}

/// The marker of a done task.
pub open spec fn done_marker() -> Seq<char> {
    seq!['[', '*', ']', ' ']
}

/// A line whose first three characters are `[*]`.
pub open spec fn is_done_line(l: Seq<char>) -> bool {
    l.len() >= 3 && l.subrange(0, 3) == done_marker().subrange(0, 3)
}

/// The text of a file that holds `lines`, each ended by `\n`.
pub open spec fn file_text(lines: Seq<Seq<char>>) -> Seq<char>
    decreases lines.len(),
{
    if lines.len() == 0 {
        Seq::empty()
    } else {
        file_text(lines.drop_last()) + lines.last().push('\n')
    }
}

/// The open task lines that `add` writes for `texts`.
pub open spec fn open_lines(texts: Seq<Seq<char>>) -> Seq<Seq<char>> {
    texts.map_values(|t: Seq<char>| open_marker() + t)
}

/// Whether some argument is the 1-based index of line `j`.
pub open spec fn targets(args: Seq<Seq<char>>, j: int) -> bool {
    exists|k: int| 0 <= k < args.len() && #[trigger] index_spec(args[k]) == Some((j + 1) as nat)
}

/// Whether every argument is an index.
pub open spec fn all_indices(args: Seq<Seq<char>>) -> bool {
    forall|k: int| 0 <= k < args.len() ==> (#[trigger] index_spec(args[k])) is Some
}

/// Argument `k` is the first that is no index.
pub open spec fn first_bad_index(args: Seq<Seq<char>>, k: int) -> bool {
    &&& 0 <= k < args.len()
    &&& index_spec(args[k]) is None
    &&& forall|m: int| 0 <= m < k ==> (#[trigger] index_spec(args[m])) is Some
}

/// Argument `a` names a line of `todo` too short to hold a marker.
pub open spec fn short_target(todo: Seq<Seq<char>>, a: Seq<char>) -> bool {
    match index_spec(a) {
        Some(p) => 1 <= p <= todo.len() && todo[p - 1].len() < 4,
        None => false,
    }
}

/// `todo` with the marker of each line that `args` names replaced by `marker`.
pub open spec fn marked(todo: Seq<Seq<char>>, args: Seq<Seq<char>>, marker: Seq<char>) -> Seq<
    Seq<char>,
> {
    Seq::new(
        todo.len(),
        |j: int|
            if targets(args, j) {
                marker + todo[j].subrange(4, todo[j].len() as int)
            } else {
                todo[j]
            },
    )
}

/// The sole argument is the keyword `done`.
pub open spec fn is_done_keyword(args: Seq<Seq<char>>) -> bool {
    args.len() == 1 && args[0] == seq!['d', 'o', 'n', 'e']
}

/// Whether `rm` with `args` removes line `j`.
pub open spec fn removes(todo: Seq<Seq<char>>, args: Seq<Seq<char>>, j: int) -> bool {
    if is_done_keyword(args) {
        is_done_line(todo[j])
    } else {
        targets(args, j)
    }
}

/// The first `n` lines of `todo` that `rm` with `args` keeps, in order.
pub open spec fn kept(todo: Seq<Seq<char>>, args: Seq<Seq<char>>, n: int) -> Seq<Seq<char>>
    decreases n,
{
    if n <= 0 {
        Seq::empty()
    } else if removes(todo, args, n - 1) {
        kept(todo, args, n - 1)
    } else {
        kept(todo, args, n - 1).push(todo[n - 1])
    }
}

/// One line of the listing: its 1-based index, its marker and its text.
pub open spec fn list_entry(todo: Seq<Seq<char>>, j: int) -> (nat, Seq<char>, Seq<char>) {
    ((j + 1) as nat, todo[j].subrange(0, 4), todo[j].subrange(4, todo[j].len() as int))
}

/// The listing of the first `n` lines: those longer than a marker.
pub open spec fn listed(todo: Seq<Seq<char>>, n: int) -> Seq<(nat, Seq<char>, Seq<char>)>
    decreases n,
{
    if n <= 0 {
        Seq::empty()
    } else if todo[n - 1].len() > 4 {
        listed(todo, n - 1).push(list_entry(todo, n - 1))
    } else {
        listed(todo, n - 1)
    }
}

/// Why an operation refused to run.
#[derive(Debug)]
pub enum TaskError {
    /// The operation needs at least one argument.
    MissingArguments,
    /// The operation needs at least one task.
    EmptyList,
    /// The argument is no index.
    InvalidIndex(String),
    /// The task of this 1-based index is too short to hold a marker.
    ShortLine(usize),
    /// The local todo file exists already.
    AlreadyExists,
}

/// What `reset` and `restore` do to the todo file and the backup file.
#[derive(Debug, Clone, Copy, PartialEq, Eq, Structural)]
pub enum FileAction {
    /// Copy the todo file over the backup, then empty the todo file.
    BackupAndClear,
    /// Copy the backup over the todo file.
    CopyBackupOver,
    /// Create an empty backup file.
    CreateEmptyBackup,
}

/// The todo file and the backup file (`None` where there is none) after
/// `action`.
pub open spec fn apply_action(action: FileAction, todo: Seq<char>, backup: Option<Seq<char>>) -> (
    Seq<char>,
    Option<Seq<char>>,
) {
    match action {
        FileAction::BackupAndClear => (Seq::empty(), Some(todo)),
        FileAction::CopyBackupOver => match backup {
            Some(b) => (b, backup),
            None => (todo, backup),
        },
        FileAction::CreateEmptyBackup => (todo, Some(Seq::empty())),
    }
}

/// What `restore` does, given whether a backup existed when the store was
/// loaded.
pub open spec fn restore_action(backed_up: bool) -> FileAction {
    if backed_up {
        FileAction::CopyBackupOver
    } else {
        FileAction::CreateEmptyBackup
    }
}

/// A line of the listing.
pub struct ListItem {
    /// The 1-based index of the task.
    pub index: usize,
    /// The task's four-character marker.
    pub status: String,
    /// The task's description.
    pub text: String,
}

/// The model of a listing.
pub open spec fn items_view(items: Seq<ListItem>) -> Seq<(nat, Seq<char>, Seq<char>)> {
    items.map_values(|it: ListItem| (it.index as nat, it.status@, it.text@))
}

/// A line of the listing as it is printed.
pub open spec fn rendered(e: (nat, Seq<char>, Seq<char>)) -> Seq<char> {
    e.1 + decimal_spec(e.0) + seq!['.', ' '] + e.2
}

impl ListItem {
    /// The line as printed: marker, index, `. `, text.
    pub fn render(&self) -> (r: String)
        ensures
            r@ == rendered((self.index as nat, self.status@, self.text@)),
    {
        proof {
            reveal_strlit(". ");
        }
        let r = self.status.clone().concat(decimal(self.index).as_str()).concat(". ").concat(
            self.text.as_str(),
        );
        r
    }
}

/// The model of a store: its lines, and where its files are.
pub ghost struct TaskView {
    pub todo: Seq<Seq<char>>,
    pub todo_path: Seq<char>,
    pub backed_up: bool,
    pub backup_path: Seq<char>,
}

/// The task list as read from the todo file, with the paths of the todo and
/// backup files and whether a backup existed when it was read.
pub struct Task {
    todo: Vec<String>,
    todo_path: String,
    backed_up: bool,
    backup_path: String,
}

impl View for Task {
    type V = TaskView;

    closed spec fn view(&self) -> TaskView {
        TaskView {
            todo: views(self.todo@),
            todo_path: self.todo_path@,
            backed_up: self.backed_up,
            backup_path: self.backup_path@,
        }
    }
}

/// The text of a file that holds `lines`.
pub fn file_content(lines: &Vec<String>) -> (r: String)
    ensures
        r@ == file_text(views(lines@)),
{
    let mut r = String::new();
    let mut i: usize = 0;
    while i < lines.len()
        invariant
            i <= lines.len(),
            r@ == file_text(views(lines@).subrange(0, i as int)),
        decreases lines.len() - i,
    {
        let ghost next = views(lines@).subrange(0, i + 1);
        assert(next.drop_last() =~= views(lines@).subrange(0, i as int));
        assert(next.last() == lines@[i as int]@);
        let nl = "\n";
        proof {
            reveal_strlit("\n");
        }
        assert(nl@ =~= seq!['\n']);
        let ghost prev = r@;
        r = r.concat(lines[i].as_str()).concat(nl);
        assert(file_text(next) == prev + lines@[i as int]@.push('\n'));
        assert(r@ =~= file_text(next));
        i = i + 1;
    }
    assert(views(lines@).subrange(0, i as int) =~= views(lines@));
    r
}

/// Parses every argument as an index; fails on the first that is none.
fn parse_all(args: &Vec<String>) -> (r: Result<Vec<usize>, TaskError>)
    ensures
        match r {
            Ok(idx) => idx.len() == args.len() && forall|k: int|
                0 <= k < args.len() ==> index_spec(#[trigger] views(args@)[k]) == Some(
                    idx[k] as nat,
                ),
            Err(e) => exists|k: int|
                first_bad_index(views(args@), k) && e == TaskError::InvalidIndex(args@[k]),
        },
{
    let mut idx: Vec<usize> = Vec::new();
    let mut k: usize = 0;
    while k < args.len()
        invariant
            k <= args.len(),
            idx.len() == k,
            forall|m: int| 0 <= m < k ==> index_spec(#[trigger] views(args@)[m]) == Some(idx[m] as nat),
        decreases args.len() - k,
    {
        match parse_index(args[k].as_str()) {
            Some(v) => idx.push(v),
            None => {
                let ghost a = views(args@);
                assert(forall|m: int| 0 <= m < k ==> (#[trigger] index_spec(a[m])) is Some);
                assert(first_bad_index(a, k as int));
                return Err(TaskError::InvalidIndex(args[k].clone()));
            },
        }
        k = k + 1;
    }
    Ok(idx)
}

/// For each of `len` lines, whether some parsed index names it.
fn flags_of(idx: &Vec<usize>, len: usize) -> (f: Vec<bool>)
    ensures
        f.len() == len,
        forall|j: int| 0 <= j < len ==> f[j] == exists|m: int| 0 <= m < idx.len() && #[trigger] idx[m] == j + 1,
{
    let mut f: Vec<bool> = Vec::new();
    while f.len() < len
        invariant
            f.len() <= len,
            forall|j: int| 0 <= j < f.len() ==> !f[j],
        decreases len - f.len(),
    {
        f.push(false);
    }
    let mut m: usize = 0;
    while m < idx.len()
        invariant
            m <= idx.len(),
            f.len() == len,
            forall|j: int| 0 <= j < len ==> f[j] == exists|q: int| 0 <= q < m && #[trigger] idx[q] == j + 1,
        decreases idx.len() - m,
    {
        let v = idx[m];
        if v >= 1 && v <= len {
            f[v - 1] = true;
        }
        m = m + 1;
    }
    f
}


/// What `done` and `undo` owe: which error comes on which arguments, and on
/// success the new lines, with `marker` on each line that `args` names, and
/// the text of the file that holds them.
pub open spec fn marks(
    old: TaskView,
    new: TaskView,
    args: Seq<Seq<char>>,
    marker: Seq<char>,
    r: Result<String, TaskError>,
) -> bool {
    &&& args.len() == 0 ==> r == Err::<String, TaskError>(TaskError::MissingArguments)
    &&& args.len() > 0 && old.todo.len() == 0 ==> r == Err::<String, TaskError>(
        TaskError::EmptyList,
    )
    &&& args.len() > 0 && old.todo.len() > 0 && !all_indices(args) ==> exists|k: int|
        first_bad_index(args, k) && match r {
            Err(TaskError::InvalidIndex(t)) => t@ == args[k],
            _ => false,
        }
    &&& args.len() > 0 && old.todo.len() > 0 && all_indices(args) && (exists|k: int|
        0 <= k < args.len() && short_target(old.todo, #[trigger] args[k])) ==> exists|k: int|
        0 <= k < args.len() && short_target(old.todo, #[trigger] args[k]) && (forall|m: int|
            0 <= m < k ==> !short_target(old.todo, #[trigger] args[m])) && match r {
            Err(TaskError::ShortLine(p)) => index_spec(args[k]) == Some(p as nat),
            _ => false,
        }
    &&& args.len() > 0 && old.todo.len() > 0 && all_indices(args) && !(exists|k: int|
        0 <= k < args.len() && short_target(old.todo, #[trigger] args[k])) ==> r is Ok
    &&& r is Ok ==> new.todo == marked(old.todo, args, marker) && r->Ok_0@ == file_text(new.todo)
    &&& r is Err ==> new.todo == old.todo
    &&& new.todo_path == old.todo_path
    &&& new.backed_up == old.backed_up
    &&& new.backup_path == old.backup_path
}

/// What `rm` owes: which error comes on which arguments, and on success the
/// lines that stay, in their order, and the text of the file that holds them.
pub open spec fn removes_as(
    old: TaskView,
    new: TaskView,
    args: Seq<Seq<char>>,
    r: Result<String, TaskError>,
) -> bool {
    &&& args.len() == 0 ==> r == Err::<String, TaskError>(TaskError::MissingArguments)
    &&& args.len() > 0 && old.todo.len() == 0 ==> r == Err::<String, TaskError>(
        TaskError::EmptyList,
    )
    &&& args.len() > 0 && old.todo.len() > 0 && !is_done_keyword(args) && !all_indices(args)
        ==> exists|k: int|
        first_bad_index(args, k) && match r {
            Err(TaskError::InvalidIndex(t)) => t@ == args[k],
            _ => false,
        }
    &&& args.len() > 0 && old.todo.len() > 0 && (is_done_keyword(args) || all_indices(args))
        ==> r is Ok
    &&& r is Ok ==> new.todo == kept(old.todo, args, old.todo.len() as int) && r->Ok_0@
        == file_text(new.todo)
    &&& r is Err ==> new.todo == old.todo
    &&& new.todo_path == old.todo_path
    &&& new.backed_up == old.backed_up
    &&& new.backup_path == old.backup_path
}

/// What `reset` decides for a store.
pub open spec fn reset_outcome(t: TaskView) -> Result<FileAction, TaskError> {
    if t.todo.len() == 0 {
        Err(TaskError::EmptyList)
    } else {
        Ok(FileAction::BackupAndClear)
    }
}

/// The index of the first argument that names a line too short to hold a
/// marker, if any.
fn first_short(todo: &Vec<String>, args: &Vec<String>, idx: &Vec<usize>) -> (r: Option<usize>)
    requires
        idx.len() == args.len(),
        forall|m: int|
            0 <= m < args.len() ==> index_spec(#[trigger] views(args@)[m]) == Some(idx[m] as nat),
    ensures
        match r {
            Some(v) => exists|k: int|
                0 <= k < args.len() && short_target(views(todo@), #[trigger] views(args@)[k])
                    && (forall|m: int|
                    0 <= m < k ==> !short_target(views(todo@), #[trigger] views(args@)[m]))
                    && index_spec(views(args@)[k]) == Some(v as nat),
            None => forall|k: int|
                0 <= k < args.len() ==> !short_target(views(todo@), #[trigger] views(args@)[k]),
        },
{
    let ghost a = views(args@);
    let n = todo.len();
    let mut k: usize = 0;
    while k < idx.len()
        invariant
            k <= idx.len() == a.len(),
            a == views(args@),
            n == todo.len(),
            forall|m: int| 0 <= m < a.len() ==> index_spec(#[trigger] a[m]) == Some(idx[m] as nat),
            forall|m: int| 0 <= m < k ==> !short_target(views(todo@), #[trigger] a[m]),
        decreases idx.len() - k,
    {
        let v = idx[k];
        if v >= 1 && v <= n && todo[v - 1].as_str().unicode_len() < 4 {
            assert(short_target(views(todo@), a[k as int]));
            return Some(v);
        }
        k = k + 1;
    }
    None
}

/// Whether `l` starts with `[*]`.
fn is_done_str(l: &String) -> (r: bool)
    ensures
        r == is_done_line(l@),
{
    proof {
        reveal_strlit("[*] ");
    }
    let s = l.as_str();
    if s.unicode_len() < 3 {
        return false;
    }
    let r = s.get_char(0) == '[' && s.get_char(1) == '*' && s.get_char(2) == ']';
    proof {
        let t = s@.subrange(0, 3);
        let dm = done_marker().subrange(0, 3);
        assert(dm =~= seq!['[', '*', ']']);
        if r {
            assert(t =~= dm);
        } else {
            assert(t[0] == s@[0] && t[1] == s@[1] && t[2] == s@[2]);
        }
    }
    r
}

impl Task {
    /// Reads a store from the text of its todo file: every line, in order.
    pub fn new(todo_path: String, backup_path: String, backed_up: bool, contents: &str) -> (t: Task)
        ensures
            t@.todo == lines_of(contents@),
            t@.todo_path == todo_path@,
            t@.backed_up == backed_up,
            t@.backup_path == backup_path@,
    {
        let todo = split_lines(contents);
        Task { todo, todo_path, backed_up, backup_path }
    }

    /// Decides whether a local todo file is to be created: only where none
    /// exists.
    pub fn init(&self, local_exists: bool) -> (r: Result<(), TaskError>)
        ensures
            local_exists ==> r == Err::<(), TaskError>(TaskError::AlreadyExists),
            !local_exists ==> r is Ok,
    {
        if local_exists {
            Err(TaskError::AlreadyExists)
        } else {
            Ok(())
        }
    }

    /// The text to append to the todo file: one open task line per text.
    pub fn add(&self, args: &Vec<String>) -> (r: Result<String, TaskError>)
        ensures
            args.len() == 0 ==> r == Err::<String, TaskError>(TaskError::MissingArguments),
            args.len() > 0 ==> r is Ok && r->Ok_0@ == file_text(open_lines(views(args@))),
    {
        if args.len() == 0 {
            return Err(TaskError::MissingArguments);
        }
        let mut lines: Vec<String> = Vec::new();
        let mut k: usize = 0;
        while k < args.len()
            invariant
                k <= args.len(),
                lines@.len() == k,
                forall|q: int| 0 <= q < k ==> #[trigger] lines@[q]@ == open_marker() + args@[q]@,
            decreases args.len() - k,
        {
            proof {
                reveal_strlit("[ ] ");
            }
            let line = String::from_str("[ ] ").concat(args[k].as_str());
            assert(line@ =~= open_marker() + args@[k as int]@);
            lines.push(line);
            k = k + 1;
        }
        assert(views(lines@) =~= open_lines(views(args@)));
        Ok(file_content(&lines))
    }

    /// The listing: each task longer than its marker, with its 1-based index;
    /// an error where there is no task.
    pub fn list(&self) -> (r: Result<Vec<ListItem>, TaskError>)
        ensures
            match r {
                Ok(items) => self@.todo.len() > 0 && items_view(items@) == listed(
                    self@.todo,
                    self@.todo.len() as int,
                ),
                Err(e) => self@.todo.len() == 0 && e == TaskError::EmptyList,
            },
    {
        if self.todo.len() == 0 {
            return Err(TaskError::EmptyList);
        }
        let mut items: Vec<ListItem> = Vec::new();
        let mut j: usize = 0;
        while j < self.todo.len()
            invariant
                j <= self.todo.len(),
                items_view(items@) == listed(self@.todo, j as int),
            decreases self.todo.len() - j,
        {
            let s = self.todo[j].as_str();
            let n = s.unicode_len();
            if n > 4 {
                let item = ListItem {
                    index: j + 1,
                    status: String::from_str(s.substring_char(0, 4)),
                    text: String::from_str(s.substring_char(4, n)),
                };
                items.push(item);
                assert(items_view(items@) =~= listed(self@.todo, j + 1));
            }
            j = j + 1;
        }
        Ok(items)
    }

    fn mark(&mut self, args: &Vec<String>, marker: &str) -> (r: Result<String, TaskError>)
        requires
            marker@.len() == 4,
        ensures
            marks(old(self)@, final(self)@, views(args@), marker@, r),
    {
        let ghost a = views(args@);
        if args.len() == 0 {
            return Err(TaskError::MissingArguments);
        }
        if self.todo.len() == 0 {
            return Err(TaskError::EmptyList);
        }
        let idx = match parse_all(args) {
            Ok(idx) => idx,
            Err(e) => {
                return Err(e);
            },
        };
        assert(all_indices(a));
        let n = self.todo.len();
        match first_short(&self.todo, args, &idx) {
            Some(v) => {
                return Err(TaskError::ShortLine(v));
            },
            None => {},
        }
        let ghost orig = self@.todo;
        let f = flags_of(&idx, n);
        assert forall|j: int| 0 <= j < n implies f[j] == targets(a, j) by {
            if f[j] {
                let m = choose|m: int| 0 <= m < idx.len() && #[trigger] idx[m] == j + 1;
                assert(index_spec(a[m]) == Some((j + 1) as nat));
            }
            if targets(a, j) {
                let m = choose|m: int| 0 <= m < a.len() && #[trigger] index_spec(a[m]) == Some((j + 1) as nat);
                assert(idx[m] == j + 1);
            }
        }
        let mut j: usize = 0;
        while j < n
            invariant
                j <= n == self.todo.len() == orig.len(),
                f.len() == n,
                marker@.len() == 4,
                forall|q: int| 0 <= q < n ==> f[q] == targets(a, q),
                forall|q: int| 0 <= q < a.len() ==> !short_target(orig, #[trigger] a[q]),
                forall|q: int| 0 <= q < j ==> self@.todo[q] == marked(orig, a, marker@)[q],
                forall|q: int| j <= q < n ==> self@.todo[q] == orig[q],
                self@.todo_path == old(self)@.todo_path,
                self@.backed_up == old(self)@.backed_up,
                self@.backup_path == old(self)@.backup_path,
                orig == old(self)@.todo,
            decreases n - j,
        {
            if f[j] {
                let s = self.todo[j].as_str();
                let len = s.unicode_len();
                proof {
                    assert(targets(a, j as int));
                    let m = choose|m: int| 0 <= m < a.len() && #[trigger] index_spec(a[m]) == Some((j + 1) as nat);
                    assert(!short_target(orig, a[m]));
                    assert(s@ == orig[j as int]);
                }
                let line = String::from_str(marker).concat(s.substring_char(4, len));
                let ghost prev = self@.todo;
                let ghost lv = line@;
                self.todo[j] = line;
                assert(self@.todo =~= prev.update(j as int, lv));
                assert(self@.todo[j as int] == marked(orig, a, marker@)[j as int]);
            } else {
                assert(self@.todo[j as int] == marked(orig, a, marker@)[j as int]);
            }
            j = j + 1;
        }
        assert(self@.todo =~= marked(orig, a, marker@));
        Ok(file_content(&self.todo))
    }

    /// Marks the tasks that `args` names (1-based) as done, and gives the new
    /// text of the todo file. Indices out of range are passed over.
    pub fn done(&mut self, args: &Vec<String>) -> (r: Result<String, TaskError>)
        ensures
            marks(old(self)@, final(self)@, views(args@), done_marker(), r),
    {
        proof {
            reveal_strlit("[*] ");
        }
        assert("[*] "@ =~= done_marker());
        self.mark(args, "[*] ")
    }

    /// Marks the tasks that `args` names (1-based) as open, and gives the new
    /// text of the todo file. Indices out of range are passed over.
    pub fn undo(&mut self, args: &Vec<String>) -> (r: Result<String, TaskError>)
        ensures
            marks(old(self)@, final(self)@, views(args@), open_marker(), r),
    {
        proof {
            reveal_strlit("[ ] ");
        }
        assert("[ ] "@ =~= open_marker());
        self.mark(args, "[ ] ")
    }

    /// Removes the tasks that `args` names (1-based), or every done task where
    /// the sole argument is `done`, and gives the new text of the todo file.
    /// The other tasks keep their order.
    pub fn remove(&mut self, args: &Vec<String>) -> (r: Result<String, TaskError>)
        ensures
            removes_as(old(self)@, final(self)@, views(args@), r),
    {
        let ghost a = views(args@);
        if args.len() == 0 {
            return Err(TaskError::MissingArguments);
        }
        if self.todo.len() == 0 {
            return Err(TaskError::EmptyList);
        }
        proof {
            reveal_strlit("done");
        }
        let keyword = String::from_str("done");
        assert(keyword@ =~= seq!['d', 'o', 'n', 'e']);
        let n = self.todo.len();
        let ghost orig = self@.todo;
        let mut sel: Vec<bool> = Vec::new();
        if args.len() == 1 && args[0] == keyword {
            assert(is_done_keyword(a));
            while sel.len() < n
                invariant
                    sel.len() <= n == self.todo.len(),
                    orig == self@.todo,
                    is_done_keyword(a),
                    forall|q: int| 0 <= q < sel.len() ==> sel[q] == removes(orig, a, q),
                decreases n - sel.len(),
            {
                let d = is_done_str(&self.todo[sel.len()]);
                sel.push(d);
            }
        } else {
            assert(args.len() == 1 ==> a[0] == args@[0]@);
            assert(!is_done_keyword(a));
            let idx = match parse_all(args) {
                Ok(idx) => idx,
                Err(e) => {
                    return Err(e);
                },
            };
            sel = flags_of(&idx, n);
            assert forall|j: int| 0 <= j < n implies sel[j] == removes(orig, a, j) by {
                if sel[j] {
                    let m = choose|m: int| 0 <= m < idx.len() && #[trigger] idx[m] == j + 1;
                    assert(index_spec(a[m]) == Some((j + 1) as nat));
                }
                if targets(a, j) {
                    let m = choose|m: int| 0 <= m < a.len() && #[trigger] index_spec(a[m]) == Some((j + 1) as nat);
                    assert(idx[m] == j + 1);
                }
            }
        }
        let mut rest: Vec<String> = Vec::new();
        let mut j: usize = 0;
        while j < n
            invariant
                j <= n == self.todo.len() == sel.len(),
                orig == self@.todo,
                forall|q: int| 0 <= q < n ==> sel[q] == removes(orig, a, q),
                views(rest@) == kept(orig, a, j as int),
            decreases n - j,
        {
            if !sel[j] {
                rest.push(self.todo[j].clone());
            }
            assert(views(rest@) =~= kept(orig, a, j + 1));
            j = j + 1;
        }
        self.todo = rest;
        Ok(file_content(&self.todo))
    }

    /// The lines of the store.
    pub fn tasks(&self) -> (r: &Vec<String>)
        ensures
            views(r@) == self@.todo,
    {
        &self.todo
    }

    /// The path of the todo file.
    pub fn todo_path(&self) -> (r: &String)
        ensures
            r@ == self@.todo_path,
    {
        &self.todo_path
    }

    /// The path of the backup file.
    pub fn backup_path(&self) -> (r: &String)
        ensures
            r@ == self@.backup_path,
    {
        &self.backup_path
    }

    /// Whether a backup existed when the store was read.
    pub fn backed_up(&self) -> (r: bool)
        ensures
            r == self@.backed_up,
    {
        self.backed_up
    }

    /// Decides what `reset` does: back up the todo file and empty it; an error
    /// where there is no task.
    pub fn reset(&self) -> (r: Result<FileAction, TaskError>)
        ensures
            r == reset_outcome(self@),
    {
        if self.todo.len() == 0 {
            Err(TaskError::EmptyList)
        } else {
            Ok(FileAction::BackupAndClear)
        }
    }

    /// Decides what `restore` does: copy the backup over the todo file where a
    /// backup existed when the store was read, else create an empty backup.
    pub fn restore(&self) -> (r: FileAction)
        ensures
            r == restore_action(self@.backed_up),
    {
        if self.backed_up {
            FileAction::CopyBackupOver
        } else {
            FileAction::CreateEmptyBackup
        }
    }
}

} // verus!
