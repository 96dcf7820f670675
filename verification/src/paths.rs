//! Paths with `/` between their components: the name of a file and its
//! extension.

use vstd::prelude::*;

use crate::text;

verus! {

/// The index of the last `c` in `s`, or -1 if there is none.
pub open spec fn last_of(s: Seq<char>, c: char) -> int
    decreases s.len(),
{
    if s.len() == 0 {
        -1
    } else if s.last() == c {
        s.len() - 1
    } else {
        last_of(s.drop_last(), c)
    }
}

/// An index with the properties of the last occurrence is the last occurrence.
proof fn lemma_last_of_is(s: Seq<char>, c: char, i: int)
    requires
        -1 <= i < s.len(),
        i >= 0 ==> s[i] == c,
        forall|j: int| i < j < s.len() ==> s[j] != c,
    ensures
        last_of(s, c) == i,
    decreases s.len(),
{
    if s.len() > 0 && i < s.len() - 1 {
        assert(s.last() == s[s.len() - 1]);
        lemma_last_of_is(s.drop_last(), c, i);
    }
}

/// The index just after the last `c` among the first `to` characters, or zero if
/// there is none.
fn after_last(v: &Vec<char>, c: char, to: usize) -> (i: usize)
    requires
        to <= v@.len(),
    ensures
        i <= to,
        i == last_of(v@.take(to as int), c) + 1,
{
    let mut i: usize = to;
    while i > 0 && v[i - 1] != c
        invariant
            i <= to <= v@.len(),
            forall|j: int| i <= j < to ==> v@[j] != c,
        decreases i,
    {
        i -= 1;
    }
    proof {
        lemma_last_of_is(v@.take(to as int), c, i - 1);
    }
    i
}

/// The name of the file at a path: its last component. Empty components and `.`
/// do not count, and a path that ends in `..` names no file.
pub open spec fn file_name(path: Seq<char>) -> Option<Seq<char>>
    decreases path.len(),
{
    let slash = last_of(path, '/');
    let name = path.skip(slash + 1);
    if name.len() == 0 || name == seq!['.'] {
        if 0 <= slash < path.len() {
            file_name(path.take(slash))
        } else {
            None
        }
    } else if name == seq!['.', '.'] {
        None
    } else {
        Some(name)
    }
}

/// What follows the last dot in the name of the file at a path. A dot at the
/// start of the name does not count.
pub open spec fn extension(path: Seq<char>) -> Option<Seq<char>> {
    match file_name(path) {
        Some(name) => {
            let dot = last_of(name, '.');
            if dot <= 0 {
                None
            } else {
                Some(name.skip(dot + 1))
            }
        },
        None => None,
    }
}

/// What follows the last dot in the name of the file at a path.
pub fn extension_of(path: &str) -> (ext: Option<String>)
    ensures
        match ext {
            Some(e) => extension(path@) == Some(e@),
            None => extension(path@) is None,
        },
{
    let v = text::chars_of(path);
    let mut end: usize = v.len();
    proof {
        assert(v@.take(end as int) == path@);
    }
    loop
        invariant
            end <= v@.len(),
            file_name(path@) == file_name(v@.take(end as int)),
        decreases end,
    {
        let start = after_last(&v, '/', end);
        let ghost p = v@.take(end as int);
        let ghost name = p.skip(start as int);
        proof {
            assert(name == v@.subrange(start as int, end as int));
        }
        let empty = start == end;
        let dot = end - start == 1 && v[start] == '.';
        let dots = end - start == 2 && v[start] == '.' && v[start + 1] == '.';
        proof {
            if dot {
                assert(name == seq!['.']);
            }
            if dots {
                assert(name == seq!['.', '.']);
            }
            if name == seq!['.'] {
                assert(name.len() == 1 && name[0] == '.');
            }
            if name == seq!['.', '.'] {
                assert(name.len() == 2 && name[0] == '.' && name[1] == '.');
            }
        }
        if empty || dot {
            if start == 0 {
                return None;
            }
            proof {
                assert(p.take(start - 1) == v@.take(start - 1));
            }
            end = start - 1;
        } else if dots {
            return None;
        } else {
            let file = text::chars_between(&v, start, end);
            let after_dot = after_last(&file, '.', file.len());
            proof {
                assert(file@.take(file@.len() as int) == file@);
                assert(file@ == name);
            }
            if after_dot <= 1 {
                return None;
            }
            proof {
                assert(name.skip(after_dot as int) == file@.subrange(
                    after_dot as int,
                    file@.len() as int,
                ));
            }
            return Some(text::text_between(&file, after_dot, file.len()));
        }
    }
}

/// Whether the name of the file at a path has this extension.
pub fn has_extension(path: &str, wanted: &str) -> (r: bool)
    ensures
        r == (extension(path@) == Some(wanted@)),
{
    match extension_of(path) {
        Some(e) => text::same(&e, wanted),
        None => false,
    }
}

// ---------------------------------------------------------------------------
// Laws
// ---------------------------------------------------------------------------

/// The name of a file is what stands after the last slash of its path.
pub proof fn law_a_file_is_named_after_the_last_slash(dir: Seq<char>, name: Seq<char>)
    requires
        name.len() > 0,
        name != seq!['.'],
        name != seq!['.', '.'],
        forall|i: int| 0 <= i < name.len() ==> name[i] != '/',
    ensures
        file_name(name) == Some(name),
        file_name(dir + seq!['/'] + name) == Some(name),
{
    lemma_last_of_is(name, '/', -1);
    assert(name.skip(0) =~= name);
    let path = dir + seq!['/'] + name;
    lemma_last_of_is(path, '/', dir.len() as int);
    assert(path.skip(dir.len() as int + 1) =~= name);
}

/// A slash at the end, a dot as a component and what they are made of do not count; a
/// path that ends in two dots names no file, and an empty one neither.
pub proof fn law_empty_components_do_not_count(dir: Seq<char>)
    ensures
        file_name(dir + seq!['/']) == file_name(dir),
        file_name(dir + seq!['/', '.']) == file_name(dir),
        file_name(dir + seq!['/', '.', '.']) is None,
        file_name(Seq::empty()) is None,
        file_name(seq!['.']) is None,
        file_name(seq!['.', '.']) is None,
{
    let a = dir + seq!['/'];
    lemma_last_of_is(a, '/', dir.len() as int);
    assert(a.skip(dir.len() as int + 1).len() == 0);
    assert(a.take(dir.len() as int) =~= dir);
    let b = dir + seq!['/', '.'];
    lemma_last_of_is(b, '/', dir.len() as int);
    assert(b.skip(dir.len() as int + 1) =~= seq!['.']);
    assert(b.take(dir.len() as int) =~= dir);
    let c = dir + seq!['/', '.', '.'];
    lemma_last_of_is(c, '/', dir.len() as int);
    assert(c.skip(dir.len() as int + 1) =~= seq!['.', '.']);
    assert(seq!['.', '.'].len() == 2 && seq!['.'].len() == 1);
    lemma_last_of_is(seq!['.'], '/', -1);
    assert(seq!['.'].skip(0) =~= seq!['.']);
    lemma_last_of_is(seq!['.', '.'], '/', -1);
    assert(seq!['.', '.'].skip(0) =~= seq!['.', '.']);
    let e = Seq::<char>::empty();
    assert(e.skip(0).len() == 0);
}

/// The extension is what stands after the last dot of the name. A name without a dot,
/// or with one at its start only, has none.
pub proof fn law_the_extension_stands_after_the_last_dot(
    dir: Seq<char>,
    stem: Seq<char>,
    ext: Seq<char>,
)
    requires
        stem.len() > 0,
        forall|i: int| 0 <= i < stem.len() ==> stem[i] != '/',
        forall|i: int| 0 <= i < ext.len() ==> ext[i] != '/' && ext[i] != '.',
    ensures
        stem + seq!['.'] + ext != seq!['.', '.'] ==> extension(
            dir + seq!['/'] + (stem + seq!['.'] + ext),
        ) == Some(ext),
        stem + seq!['.'] + ext != seq!['.', '.'] ==> extension(stem + seq!['.'] + ext) == Some(
            ext,
        ),
        ext.len() > 0 ==> extension(ext) is None,
        ext.len() > 0 ==> extension(seq!['.'] + ext) is None,
        ext.len() > 0 ==> extension(dir + seq!['/'] + ext) is None,
{
    let name = stem + seq!['.'] + ext;
    assert(name.len() >= 2);
    assert(seq!['.'].len() == 1);
    assert forall|i: int| 0 <= i < name.len() implies name[i] != '/' by {
        if i < stem.len() {
            assert(name[i] == stem[i]);
        } else if i > stem.len() {
            assert(name[i] == ext[i - stem.len() - 1]);
        }
    }
    if name != seq!['.', '.'] {
        law_a_file_is_named_after_the_last_slash(dir, name);
    }
    assert forall|j: int| stem.len() < j < name.len() implies name[j] != '.' by {
        assert(name[j] == ext[j - stem.len() - 1]);
    }
    lemma_last_of_is(name, '.', stem.len() as int);
    assert(name.skip(stem.len() as int + 1) =~= ext);
    if ext.len() > 0 {
        assert(ext[0] != '.');
        assert(seq!['.'][0] == '.' && seq!['.', '.'][0] == '.');
        law_a_file_is_named_after_the_last_slash(dir, ext);
        lemma_last_of_is(ext, '.', -1);
        let hidden = seq!['.'] + ext;
        assert(hidden[1] == ext[0]);
        assert(seq!['.', '.'][1] == '.');
        assert(hidden.len() >= 2);
        assert forall|i: int| 0 <= i < hidden.len() implies hidden[i] != '/' by {
            if i > 0 {
                assert(hidden[i] == ext[i - 1]);
            }
        }
        law_a_file_is_named_after_the_last_slash(dir, hidden);
        assert forall|j: int| 0 < j < hidden.len() implies hidden[j] != '.' by {
            assert(hidden[j] == ext[j - 1]);
        }
        lemma_last_of_is(hidden, '.', 0);
    }
}

/// The extension of a file is what follows the last dot of its name, which has something
/// before it.
pub proof fn law_the_extension_is_read(
    path: &str,
    ext: Option<String>,
    dir: Seq<char>,
    stem: Seq<char>,
    end: Seq<char>,
)
    requires
        call_ensures(extension_of, (path,), ext),
        stem.len() > 0,
        forall|i: int| 0 <= i < stem.len() ==> stem[i] != '/',
        forall|i: int| 0 <= i < end.len() ==> end[i] != '/' && end[i] != '.',
        stem + seq!['.'] + end != seq!['.', '.'],
        path@ == stem + seq!['.'] + end || path@ == dir + seq!['/'] + (stem + seq!['.'] + end),
    ensures
        ext is Some,
        ext->Some_0@ == end,
{
    law_the_extension_stands_after_the_last_dot(dir, stem, end);
}

/// A file has the extension that is read from its name, letter for letter.
pub proof fn law_an_extension_is_compared(path: &str, wanted: &str, ext: Option<String>, r: bool)
    requires
        call_ensures(extension_of, (path,), ext),
        call_ensures(has_extension, (path, wanted), r),
    ensures
        r <==> ext is Some && ext->Some_0@ == wanted@,
{
}

} // verus!
