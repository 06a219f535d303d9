//! Properties of the store that relate several operations, or hold of every
//! input, proved over the models that the operations' contracts use.

use crate::task::{
    apply_action, done_marker, file_text, is_done_keyword, is_done_line, kept, list_entry, listed,
    marked, open_lines, open_marker, removes, reset_outcome, restore_action, short_target,
    targets, FileAction, TaskError, TaskView,
};
use crate::text::{index_spec, lines_of, scan_lines, strip_cr};
use vstd::prelude::*;

verus! {

proof fn lemma_scan_text(a: Seq<char>, l: Seq<char>)
    requires
        !l.contains('\n'),
    ensures
        scan_lines(a + l) == (scan_lines(a).0, scan_lines(a).1 + l),
    decreases l.len(),
{
    if l.len() == 0 {
        assert(a + l =~= a);
        assert(scan_lines(a).1 + l =~= scan_lines(a).1);
    } else {
        let p = l.drop_last();
        assert(!p.contains('\n')) by {
            if p.contains('\n') {
                let i = choose|i: int| 0 <= i < p.len() && p[i] == '\n';
                assert(l[i] == '\n');
            }
        }
        lemma_scan_text(a, p);
        assert((a + l).drop_last() =~= a + p);
        assert(l.last() == l[l.len() - 1]);
        assert(scan_lines(a).1 + l =~= (scan_lines(a).1 + p).push(l.last()));
    }
}

proof fn lemma_scan_lines_text(a: Seq<char>, ls: Seq<Seq<char>>)
    requires
        scan_lines(a).1.len() == 0,
        forall|i: int| 0 <= i < ls.len() ==> !(#[trigger] ls[i]).contains('\n'),
    ensures
        scan_lines(a + file_text(ls)) == (
            scan_lines(a).0 + ls.map_values(|l: Seq<char>| strip_cr(l)),
            Seq::<char>::empty(),
        ),
    decreases ls.len(),
{
    if ls.len() == 0 {
        assert(a + file_text(ls) =~= a);
        assert(scan_lines(a).0 + ls.map_values(|l: Seq<char>| strip_cr(l)) =~= scan_lines(a).0);
        assert(scan_lines(a).1 =~= Seq::<char>::empty());
    } else {
        let p = ls.drop_last();
        let l = ls.last();
        assert(ls[ls.len() - 1] == l);
        lemma_scan_lines_text(a, p);
        let b = a + file_text(p);
        assert(a + file_text(ls) =~= (b + l).push('\n'));
        lemma_scan_text(b, l);
        assert(((b + l).push('\n')).drop_last() =~= b + l);
        assert(Seq::<char>::empty() + l =~= l);
        assert(scan_lines(a).0 + ls.map_values(|l: Seq<char>| strip_cr(l)) =~= (scan_lines(a).0
            + p.map_values(|l: Seq<char>| strip_cr(l))).push(strip_cr(l)));
    }
}

proof fn lemma_open_lines_plain(texts: Seq<Seq<char>>)
    requires
        forall|i: int| 0 <= i < texts.len() ==> !(#[trigger] texts[i]).contains('\n'),
    ensures
        forall|i: int|
            0 <= i < open_lines(texts).len() ==> !(#[trigger] open_lines(texts)[i]).contains('\n'),
        forall|i: int|
            0 <= i < texts.len() && !(texts[i].len() > 0 && texts[i].last() == '\r') ==> strip_cr(
                #[trigger] open_lines(texts)[i],
            ) == open_lines(texts)[i],
{
    let ls = open_lines(texts);
    assert forall|i: int| 0 <= i < ls.len() implies !(#[trigger] ls[i]).contains('\n') by {
        let t = texts[i];
        let l = open_marker() + t;
        assert(ls[i] == l);
        if l.contains('\n') {
            let k = choose|k: int| 0 <= k < l.len() && l[k] == '\n';
            if k >= 4 {
                assert(t[k - 4] == '\n');
            }
        }
    }
    assert forall|i: int|
        0 <= i < texts.len() && !(texts[i].len() > 0 && texts[i].last() == '\r') implies strip_cr(
        #[trigger] ls[i],
    ) == ls[i] by {
        let t = texts[i];
        let l = open_marker() + t;
        assert(ls[i] == l);
        if t.len() > 0 {
            assert(l.last() == t.last());
        }
    }
}

proof fn lemma_ends_line(content: Seq<char>)
    requires
        content.len() == 0 || content.last() == '\n',
    ensures
        scan_lines(content).1.len() == 0,
        lines_of(content) == scan_lines(content).0,
{
    if content.len() > 0 {
        assert(content.drop_last().push('\n') =~= content);
    }
}

/// Appending what `add` writes to a file that is empty or ends with a line
/// ending adds one line per text, repeated texts included; texts hold no `\n`.
pub proof fn lemma_add_line_count(content: Seq<char>, texts: Seq<Seq<char>>)
    requires
        content.len() == 0 || content.last() == '\n',
        forall|i: int| 0 <= i < texts.len() ==> !(#[trigger] texts[i]).contains('\n'),
    ensures
        lines_of(content + file_text(open_lines(texts))).len() == lines_of(content).len()
            + texts.len(),
{
    lemma_open_lines_plain(texts);
    lemma_ends_line(content);
    lemma_scan_lines_text(content, open_lines(texts));
}

/// Appending what `add` writes to a file that is empty or ends with a line
/// ending adds the open task line of each text, in order, after the lines
/// already there; texts hold no `\n` and do not end with `\r`.
pub proof fn lemma_add_appends_lines(content: Seq<char>, texts: Seq<Seq<char>>)
    requires
        content.len() == 0 || content.last() == '\n',
        forall|i: int|
            0 <= i < texts.len() ==> !(#[trigger] texts[i]).contains('\n') && !(texts[i].len() > 0
                && texts[i].last() == '\r'),
    ensures
        lines_of(content + file_text(open_lines(texts))) == lines_of(content) + open_lines(texts),
{
    let ls = open_lines(texts);
    lemma_open_lines_plain(texts);
    lemma_ends_line(content);
    lemma_scan_lines_text(content, ls);
    assert(ls.map_values(|l: Seq<char>| strip_cr(l)) =~= ls);
}

/// `done` and then `undo` on the same indices leaves each named line open with
/// its description, and every other line as it was: so a line that was open
/// comes back unchanged. `undo` succeeds wherever `done` did.
pub proof fn lemma_done_then_undo(todo: Seq<Seq<char>>, args: Seq<Seq<char>>)
    requires
        forall|k: int| 0 <= k < args.len() ==> !short_target(todo, #[trigger] args[k]),
    ensures
        forall|k: int|
            0 <= k < args.len() ==> !short_target(
                marked(todo, args, done_marker()),
                #[trigger] args[k],
            ),
        marked(marked(todo, args, done_marker()), args, open_marker()) == marked(
            todo,
            args,
            open_marker(),
        ),
        forall|j: int|
            0 <= j < todo.len() && targets(args, j) ==> #[trigger] marked(
                marked(todo, args, done_marker()),
                args,
                open_marker(),
            )[j] == open_marker() + todo[j].subrange(4, todo[j].len() as int),
        forall|j: int|
            0 <= j < todo.len() && (!targets(args, j) || (todo[j].len() >= 4 && todo[j].subrange(
                0,
                4,
            ) == open_marker())) ==> #[trigger] marked(
                marked(todo, args, done_marker()),
                args,
                open_marker(),
            )[j] == todo[j],
{
    let once = marked(todo, args, done_marker());
    let twice = marked(once, args, open_marker());
    let direct = marked(todo, args, open_marker());
    assert forall|j: int| 0 <= j < todo.len() && targets(args, j) implies todo[j].len() >= 4 by {
        let k = choose|k: int| 0 <= k < args.len() && #[trigger] index_spec(args[k]) == Some((j + 1) as nat);
        assert(!short_target(todo, args[k]));
    }
    assert forall|k: int| 0 <= k < args.len() implies !short_target(once, #[trigger] args[k]) by {
        match index_spec(args[k]) {
            Some(p) => {
                if 1 <= p <= todo.len() {
                    assert(!short_target(todo, args[k]));
                    let j = p - 1;
                    assert(targets(args, j as int));
                }
            },
            None => {},
        }
    }
    assert forall|j: int| 0 <= j < todo.len() implies twice[j] == direct[j] by {
        if targets(args, j) {
            let l = once[j];
            assert(l.subrange(4, l.len() as int) =~= todo[j].subrange(4, todo[j].len() as int));
        }
    }
    assert(twice =~= direct);
    assert forall|j: int|
        0 <= j < todo.len() && (!targets(args, j) || (todo[j].len() >= 4 && todo[j].subrange(0, 4)
            == open_marker())) implies #[trigger] twice[j] == todo[j] by {
        if targets(args, j) {
            assert(todo[j] =~= todo[j].subrange(0, 4) + todo[j].subrange(4, todo[j].len() as int));
        }
    }
}

/// Indices that name no line change nothing.
pub proof fn lemma_out_of_range_changes_nothing(
    todo: Seq<Seq<char>>,
    args: Seq<Seq<char>>,
    marker: Seq<char>,
)
    requires
        forall|k: int|
            0 <= k < args.len() ==> match #[trigger] index_spec(args[k]) {
                Some(p) => p == 0 || p > todo.len(),
                None => true,
            },
    ensures
        marked(todo, args, marker) == todo,
{
    assert forall|j: int| 0 <= j < todo.len() implies !targets(args, j) by {
        if targets(args, j) {
            let k = choose|k: int| 0 <= k < args.len() && #[trigger] index_spec(args[k]) == Some((j + 1) as nat);
        }
    }
    assert(marked(todo, args, marker) =~= todo);
}

/// Each line of a listing is a line of the store longer than a marker, split
/// into its marker and its description, under its own 1-based index.
pub proof fn lemma_list_shows_long_lines(todo: Seq<Seq<char>>, n: int)
    requires
        0 <= n <= todo.len(),
    ensures
        forall|k: int|
            0 <= k < listed(todo, n).len() ==> {
                let e = #[trigger] listed(todo, n)[k];
                &&& 1 <= e.0 <= n
                &&& todo[e.0 - 1].len() > 4
                &&& e.1 + e.2 == todo[e.0 - 1]
            },
    decreases n,
{
    if n > 0 {
        lemma_list_shows_long_lines(todo, n - 1);
        let l = todo[n - 1];
        let prev = listed(todo, n - 1);
        if l.len() > 4 {
            let e = list_entry(todo, n - 1);
            assert(e.1 + e.2 =~= l);
            assert forall|k: int| 0 <= k < listed(todo, n).len() implies {
                let f = #[trigger] listed(todo, n)[k];
                &&& 1 <= f.0 <= n
                &&& todo[f.0 - 1].len() > 4
                &&& f.1 + f.2 == todo[f.0 - 1]
            } by {
                if k < prev.len() {
                    assert(listed(todo, n)[k] == prev[k]);
                }
            }
        }
    }
}

/// `rm done` removes exactly the lines marked done, and keeps the others in
/// their order.
pub proof fn lemma_rm_done_keeps_open(todo: Seq<Seq<char>>, args: Seq<Seq<char>>)
    requires
        is_done_keyword(args),
    ensures
        kept(todo, args, todo.len() as int) == todo.filter(|l: Seq<char>| !is_done_line(l)),
{
    lemma_kept_filter(todo, args, todo.len() as int);
    assert(todo.subrange(0, todo.len() as int) =~= todo);
}

proof fn lemma_kept_filter(todo: Seq<Seq<char>>, args: Seq<Seq<char>>, n: int)
    requires
        is_done_keyword(args),
        0 <= n <= todo.len(),
    ensures
        kept(todo, args, n) == todo.subrange(0, n).filter(|l: Seq<char>| !is_done_line(l)),
    decreases n,
{
    reveal(Seq::filter);
    if n > 0 {
        lemma_kept_filter(todo, args, n - 1);
        assert(todo.subrange(0, n).drop_last() =~= todo.subrange(0, n - 1));
        assert(removes(todo, args, n - 1) == is_done_line(todo[n - 1]));
    } else {
        assert(todo.subrange(0, n) =~= Seq::<Seq<char>>::empty());
    }
}

/// `reset` and then `restore`, read in a process that sees the backup that
/// `reset` wrote, give the todo file back the text it had before the reset.
pub proof fn lemma_reset_then_restore(
    store: TaskView,
    todo: Seq<char>,
    backup: Option<Seq<char>>,
    next: TaskView,
)
    requires
        store.todo.len() > 0,
        next.backed_up == (apply_action(FileAction::BackupAndClear, todo, backup).1 is Some),
    ensures
        reset_outcome(store) == Ok::<FileAction, TaskError>(FileAction::BackupAndClear),
        ({
            let after = apply_action(FileAction::BackupAndClear, todo, backup);
            apply_action(restore_action(next.backed_up), after.0, after.1).0 == todo
        }),
{
}

/// `restore` where no backup exists leaves the todo file as it is and creates
/// an empty backup.
pub proof fn lemma_restore_without_backup(store: TaskView, todo: Seq<char>)
    requires
        !store.backed_up,
    ensures
        apply_action(restore_action(store.backed_up), todo, None) == (
            todo,
            Some(Seq::<char>::empty()),
        ),
{
}

} // verus!
