//! Reading mount tables: the lines of `/proc/mounts` and of
//! `/proc/<pid>/mounts`.
//!
//! A line reads `<device> <mount point> <type> <options> 0 0`.  Device,
//! type and options together identify the file system that is mounted; the
//! same three on the host tell where the host sees that file system.
use vstd::prelude::*;
use vstd::slice::slice_subrange;
use crate::table::TextMap;
use crate::text::chars_of;
use crate::text::fields;
use crate::text::fields_from;
use crate::text::find_line_end;
use crate::text::find_line_stop;
use crate::text::lemma_line_end_bounds;
use crate::text::lines;
use crate::text::lines_from;
use crate::text::next_field;
use crate::text::string_of;

verus! {

/// The key of a mount table line with the fields `f`: device, type and
/// options, joined by colons.
pub open spec fn key_of(f: Seq<Seq<char>>) -> Seq<char> {
    f[0] + seq![':'] + f[2] + seq![':'] + f[3]
}

/// Whether the line has the fields of a mount table entry.
pub open spec fn is_entry(line: Seq<char>) -> bool {
    fields(line).len() >= 4
}

/// The key of the first entry among the lines whose mount point is `/`.
pub open spec fn root_key_of(lines: Seq<Seq<char>>) -> Option<Seq<char>>
    decreases lines.len(),
{
    if lines.len() == 0 {
        None
    } else if is_entry(lines[0]) && fields(lines[0])[1] == seq!['/'] {
        Some(key_of(fields(lines[0])))
    } else {
        root_key_of(lines.drop_first())
    }
}

/// The mount points by key that the lines give.  Lines that are no entries
/// give nothing; of two entries with one key the later counts.
pub open spec fn mounts_of(lines: Seq<Seq<char>>) -> Map<Seq<char>, Seq<char>>
    decreases lines.len(),
{
    if lines.len() == 0 {
        Map::empty()
    } else if is_entry(lines.last()) {
        mounts_of(lines.drop_last()).insert(key_of(fields(lines.last())), fields(lines.last())[1])
    } else {
        mounts_of(lines.drop_last())
    }
}

/// Appends the characters from `from` up to `to` to the string.
fn push_chars(s: &mut String, chars: &[char], from: usize, to: usize)
    requires
        from <= to <= chars@.len(),
    ensures
        final(s)@ == old(s)@ + chars@.subrange(from as int, to as int),
{
    let mut i: usize = from;
    assert(s@ =~= old(s)@ + chars@.subrange(from as int, i as int));
    while i < to
        invariant
            from <= i <= to <= chars@.len(),
            s@ == old(s)@ + chars@.subrange(from as int, i as int),
        decreases to - i,
    {
        s.push(chars[i]);
        i += 1;
        assert(s@ =~= old(s)@ + chars@.subrange(from as int, i as int));
    }
}

/// Reads a line as a mount table entry: its key and its mount point.
/// `None` for a line of fewer than four fields.
pub fn mount_entry(line: &[char]) -> (entry: Option<(String, String)>)
    ensures
        match entry {
            Some((key, mount_point)) => {
                &&& is_entry(line@)
                &&& key@ == key_of(fields(line@))
                &&& mount_point@ == fields(line@)[1]
            },
            None => !is_entry(line@),
        },
{
    let ghost s = line@;
    let device = match next_field(line, 0) {
        Some(bounds) => bounds,
        None => {
            assert(fields(s).len() == 0);
            return None;
        },
    };
    let ghost rest1 = fields_from(s, device.1 as int);
    assert(fields(s) == seq![s.subrange(device.0 as int, device.1 as int)] + rest1);
    let point = match next_field(line, device.1) {
        Some(bounds) => bounds,
        None => {
            assert(rest1.len() == 0);
            return None;
        },
    };
    let ghost rest2 = fields_from(s, point.1 as int);
    assert(rest1 == seq![s.subrange(point.0 as int, point.1 as int)] + rest2);
    let kind = match next_field(line, point.1) {
        Some(bounds) => bounds,
        None => {
            assert(rest2.len() == 0);
            return None;
        },
    };
    let ghost rest3 = fields_from(s, kind.1 as int);
    assert(rest2 == seq![s.subrange(kind.0 as int, kind.1 as int)] + rest3);
    let options = match next_field(line, kind.1) {
        Some(bounds) => bounds,
        None => {
            assert(rest3.len() == 0);
            return None;
        },
    };
    assert(rest3 == seq![s.subrange(options.0 as int, options.1 as int)] + fields_from(
        s,
        options.1 as int,
    ));
    assert(fields(s)[0] == s.subrange(device.0 as int, device.1 as int));
    assert(fields(s)[1] == s.subrange(point.0 as int, point.1 as int));
    assert(fields(s)[2] == s.subrange(kind.0 as int, kind.1 as int));
    assert(fields(s)[3] == s.subrange(options.0 as int, options.1 as int));
    let mut key = string_of(line, device.0, device.1);
    key.push(':');
    push_chars(&mut key, line, kind.0, kind.1);
    key.push(':');
    push_chars(&mut key, line, options.0, options.1);
    assert(key@ =~= key_of(fields(s)));
    Some((key, string_of(line, point.0, point.1)))
}

/// Whether the line has the fields of a mount table entry.
pub fn is_mount_line(line: &str) -> (b: bool)
    ensures
        b == is_entry(line@),
{
    let chars = chars_of(line);
    mount_entry(chars.as_slice()).is_some()
}

/// The key and the mount point of a mount table entry.
pub fn key_val_from_line(line: &str) -> (entry: (String, String))
    requires
        is_entry(line@),
    ensures
        entry.0@ == key_of(fields(line@)),
        entry.1@ == fields(line@)[1],
{
    let chars = chars_of(line);
    match mount_entry(chars.as_slice()) {
        Some(entry) => entry,
        None => vstd::pervasive::unreached(),
    }
}

/// Whether the text is the single character `/`.
pub fn is_root(text: &String) -> (b: bool)
    ensures
        b == (text@ == seq!['/']),
{
    let mut root = String::new();
    root.push('/');
    assert(root@ =~= seq!['/']);
    *text == root
}

/// The key of the file system that a process has as its root: that of the
/// first entry of its mount table whose mount point is `/`.
pub fn root_key(contents: &str) -> (key: Option<String>)
    ensures
        match key {
            Some(k) => root_key_of(lines(contents@)) == Some(k@),
            None => root_key_of(lines(contents@)) is None,
        },
{
    let chars = chars_of(contents);
    let all = chars.as_slice();
    let ghost s = all@;
    let mut from: usize = 0;
    while from < all.len()
        invariant
            all@ == s,
            s == contents@,
            from <= s.len(),
            root_key_of(lines(s)) == root_key_of(lines_from(s, from as int)),
        decreases s.len() - from,
    {
        let end = find_line_end(all, from);
        let stop = find_line_stop(all, from, end);
        let line = slice_subrange(all, from, stop);
        let next = if end < all.len() {
            end + 1
        } else {
            end
        };
        proof {
            lemma_line_end_bounds(s, from as int);
            let rest = lines_from(s, next as int);
            assert(lines_from(s, from as int) =~= seq![line@] + rest);
            assert((seq![line@] + rest).drop_first() =~= rest);
            assert((seq![line@] + rest)[0] == line@);
        }
        match mount_entry(line) {
            Some((key, mount_point)) => {
                if is_root(&mount_point) {
                    return Some(key);
                }
            },
            None => {},
        }
        from = next;
    }
    None
}

/// The host's mount points by key, from the host's mount table.
pub fn parse_mounts(contents: &str) -> (mounts: TextMap)
    ensures
        mounts@ == mounts_of(lines(contents@)),
{
    let chars = chars_of(contents);
    let all = chars.as_slice();
    let ghost s = all@;
    let mut mounts = TextMap::new();
    let mut from: usize = 0;
    let ghost mut done: Seq<Seq<char>> = Seq::empty();
    assert(done + lines_from(s, 0) =~= lines(s));
    while from < all.len()
        invariant
            all@ == s,
            s == contents@,
            from <= s.len(),
            lines(s) == done + lines_from(s, from as int),
            mounts@ == mounts_of(done),
        decreases s.len() - from,
    {
        let end = find_line_end(all, from);
        let stop = find_line_stop(all, from, end);
        let line = slice_subrange(all, from, stop);
        let next = if end < all.len() {
            end + 1
        } else {
            end
        };
        proof {
            lemma_line_end_bounds(s, from as int);
            let rest = lines_from(s, next as int);
            assert(lines_from(s, from as int) =~= seq![line@] + rest);
            assert(done + (seq![line@] + rest) =~= done.push(line@) + rest);
            assert(done.push(line@).drop_last() =~= done);
            assert(done.push(line@).last() == line@);
        }
        match mount_entry(line) {
            Some((key, mount_point)) => {
                mounts.insert(key, mount_point);
            },
            None => {},
        }
        proof {
            done = done.push(line@);
        }
        from = next;
    }
    assert(done + lines_from(s, from as int) =~= done);
    mounts
}

} // verus!
