//! The remapping resolver. A remapping file holds lines `alias=relative/path`;
//! each becomes an alias and a path below the directory of the file. Reading
//! the file is the caller's part.

use crate::text::{
    before_last, chars_of, copy_range, find_last, holds_before, last_index_of, push_all, rows_view,
    split, split_at_each, string_of,
};
use vstd::prelude::*;

verus! {

/// An alias that the compiler puts in place of a path prefix of an import.
#[derive(Debug)]
pub struct Remapping {
    pub name: String,
    pub path: String,
}

/// The model of `Remapping`.
pub struct RemappingView {
    pub name: Seq<char>,
    pub path: Seq<char>,
}

impl View for Remapping {
    type V = RemappingView;

    open spec fn view(&self) -> RemappingView {
        RemappingView { name: self.name@, path: self.path@ }
    }
}

/// The models of a sequence of remappings.
pub open spec fn remapping_views(remappings: Seq<Remapping>) -> Seq<RemappingView> {
    remappings.map_values(|remapping: Remapping| remapping@)
}

/// A line without the carriage return that ends it, if one does.
pub open spec fn without_cr(line: Seq<char>) -> Seq<char> {
    if line.len() > 0 && line.last() == '\r' {
        line.drop_last()
    } else {
        line
    }
}

/// The lines of a text: what stands between its line feeds, each without a
/// closing carriage return.
pub open spec fn lines_of(text: Seq<char>) -> Seq<Seq<char>> {
    split(text, '\n').map_values(|line: Seq<char>| without_cr(line))
}

/// The directory of a file: its path up to the last `'/'`. A path without
/// `'/'` has the empty directory.
pub open spec fn directory_of(file: Seq<char>) -> Seq<char> {
    before_last(file, '/')
}

/// The path of a remapping: the directory of the remapping file, a `'/'`,
/// and the right-hand side of the line as it stands. The right-hand side is
/// never resolved against anything else.
pub open spec fn joined(directory: Seq<char>, relative: Seq<char>) -> Seq<char> {
    directory + seq!['/'] + relative
}

/// The remapping that a line holds: a line with exactly one `'='` gives the
/// alias before it and, joined to the directory, the path after it. Any
/// other line, a blank one too, gives none.
pub open spec fn remapping_of(line: Seq<char>, directory: Seq<char>) -> Option<RemappingView> {
    let at = last_index_of(line, '=');
    if at >= 0 && !line.take(at).contains('=') {
        Some(RemappingView { name: line.take(at), path: joined(directory, line.skip(at + 1)) })
    } else {
        None
    }
}

/// The remappings of a file at path `file` with content `text`: one for each
/// well-formed line, in the order of the lines. Two lines with one alias
/// give two remappings.
pub open spec fn remappings_of(text: Seq<char>, file: Seq<char>) -> Seq<RemappingView> {
    lines_of(text).filter_map(|line: Seq<char>| remapping_of(line, directory_of(file)))
}

/// A line `alias=relative` in which neither side holds a `'='` gives the
/// alias and the relative path joined to the directory.
pub proof fn lemma_well_formed_line(name: Seq<char>, relative: Seq<char>, directory: Seq<char>)
    requires
        !name.contains('='),
        !relative.contains('='),
    ensures
        remapping_of(name + seq!['='] + relative, directory) == Some(
            RemappingView { name, path: directory + seq!['/'] + relative },
        ),
{
    let line = name + seq!['='] + relative;
    let at = last_index_of(line, '=');
    crate::text::lemma_last_index_of(line, '=');
    assert(line[name.len() as int] == '=');
    if at > name.len() {
        assert(relative[at - name.len() - 1] == line[at]);
        assert(relative.contains('='));
    }
    assert(at == name.len());
    assert(line.take(at) =~= name);
    assert(line.skip(at + 1) =~= relative);
}

/// A line without `'='` gives no remapping.
pub proof fn lemma_line_without_equals(line: Seq<char>, directory: Seq<char>)
    requires
        !line.contains('='),
    ensures
        remapping_of(line, directory) is None,
{
    crate::text::lemma_last_index_of(line, '=');
    if last_index_of(line, '=') >= 0 {
        assert(line.contains('='));
    }
}

/// A line with more than one `'='` gives no remapping.
pub proof fn lemma_line_with_two_equals(line: Seq<char>, directory: Seq<char>, i: int, j: int)
    requires
        0 <= i < j < line.len(),
        line[i] == '=',
        line[j] == '=',
    ensures
        remapping_of(line, directory) is None,
{
    crate::text::lemma_last_index_of(line, '=');
    let at = last_index_of(line, '=');
    assert(at >= j);
    assert(line.take(at)[i] == '=');
}

/// Every path that a remapping file gives lies below the directory of the
/// file.
pub proof fn lemma_paths_below_directory(text: Seq<char>, file: Seq<char>, i: int)
    requires
        0 <= i < remappings_of(text, file).len(),
    ensures
        (directory_of(file) + seq!['/']).is_prefix_of(remappings_of(text, file)[i].path),
{
    let read = |line: Seq<char>| remapping_of(line, directory_of(file));
    let found = remappings_of(text, file)[i];
    assert(lines_of(text).filter_map(read).contains(found));
    lines_of(text).lemma_filter_map_contains(read, found);
    let line = choose|line: Seq<char>| #[trigger]
        lines_of(text).contains(line) && read(line) == Some(found);
    let head = directory_of(file) + seq!['/'];
    let tail = line.skip(last_index_of(line, '=') + 1);
    assert(found.path == head + tail);
    assert((head + tail).subrange(0, head.len() as int) =~= head);
}

/// The directory of a file.
pub fn directory(file: &Vec<char>) -> (dir: Vec<char>)
    ensures
        dir@ == directory_of(file@),
{
    let last = find_last(file, '/');
    match last {
        Some(at) => {
            let dir = copy_range(file, 0, at);
            assert(file@.subrange(0, at as int) =~= file@.take(at as int));
            dir
        },
        None => Vec::new(),
    }
}

/// The remapping that a line holds, if it holds one.
pub fn read_line(line: &Vec<char>, dir: &Vec<char>) -> (remapping: Option<Remapping>)
    ensures
        match remapping {
            Some(remapping) => remapping_of(without_cr(line@), dir@) == Some(remapping@),
            None => remapping_of(without_cr(line@), dir@) is None,
        },
{
    let end: usize = if line.len() > 0 && line[line.len() - 1] == '\r' {
        line.len() - 1
    } else {
        line.len()
    };
    let trimmed = copy_range(line, 0, end);
    assert(trimmed@ =~= without_cr(line@));
    let last = find_last(&trimmed, '=');
    match last {
        Some(at) => {
            if holds_before(&trimmed, at, '=') {
                None
            } else {
                let name = copy_range(&trimmed, 0, at);
                let relative = copy_range(&trimmed, at + 1, trimmed.len());
                let mut path = copy_range(dir, 0, dir.len());
                path.push('/');
                push_all(&mut path, &relative);
                proof {
                    assert(name@ =~= trimmed@.take(at as int));
                    assert(relative@ =~= trimmed@.skip(at + 1));
                    assert(path@ =~= joined(dir@, trimmed@.skip(at + 1)));
                }
                Some(Remapping { name: string_of(&name), path: string_of(&path) })
            }
        },
        None => None,
    }
}

/// The remappings of the file at path `file` whose content is `text`.
pub fn parse_remappings(text: &str, file: &str) -> (remappings: Vec<Remapping>)
    ensures
        remapping_views(remappings@) == remappings_of(text@, file@),
{
    let dir = directory(&chars_of(file));
    let rows = split_at_each(&chars_of(text), '\n');
    let ghost lines = lines_of(text@);
    let ghost read = |line: Seq<char>| remapping_of(line, directory_of(file@));
    let mut remappings: Vec<Remapping> = Vec::new();
    let mut i: usize = 0;
    proof {
        assert(lines.take(0).filter_map(read) =~= Seq::<RemappingView>::empty());
        assert(remapping_views(remappings@) =~= Seq::<RemappingView>::empty());
    }
    while i < rows.len()
        invariant
            i <= rows.len(),
            rows_view(rows@) == split(text@, '\n'),
            lines == lines_of(text@),
            dir@ == directory_of(file@),
            read == (|line: Seq<char>| remapping_of(line, directory_of(file@))),
            remapping_views(remappings@) == lines.take(i as int).filter_map(read),
        decreases rows.len() - i,
    {
        let ghost before = remapping_views(remappings@);
        proof {
            lines.lemma_filter_map_take_succ(read, i as int);
            assert(lines[i as int] == without_cr(rows_view(rows@)[i as int]));
        }
        match read_line(&rows[i], &dir) {
            Some(remapping) => {
                let ghost view = remapping@;
                remappings.push(remapping);
                proof {
                    assert(remapping_views(remappings@) =~= before.push(view));
                }
            },
            None => {},
        }
        i += 1;
    }
    proof {
        assert(lines.take(rows@.len() as int) =~= lines);
    }
    remappings
}

} // verus!
