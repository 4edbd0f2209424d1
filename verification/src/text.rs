//! Names and paths as sequences of characters: where a base name starts,
//! what a file's extension is, when a filter lets a name through, and how a
//! destination root and a base name make an output path.

use vstd::prelude::*;

verus! {

/// The index of the last `c` in `s`, or -1 where `s` holds none.
pub open spec fn last_index(s: Seq<char>, c: char) -> int
    decreases s.len(),
{
    if s.len() == 0 {
        -1
    } else if s.last() == c {
        s.len() - 1
    } else {
        last_index(s.drop_last(), c)
    }
}

/// What follows the last `/` of `path`; the whole of it where there is none.
pub open spec fn base_name_of(path: Seq<char>) -> Seq<char> {
    path.skip(last_index(path, '/') + 1)
}

/// The extension of a file name: what follows its last `.`, unless the name
/// has no `.` or only the one it begins with.
pub open spec fn extension_of(name: Seq<char>) -> Option<Seq<char>> {
    let dot = last_index(name, '.');
    if dot <= 0 {
        None
    } else {
        Some(name.skip(dot + 1))
    }
}

/// A filter without the wildcard marker `*.` that a caller may have put in
/// front of it.
pub open spec fn bare_filter(filter: Seq<char>) -> Seq<char> {
    if filter.len() >= 2 && filter[0] == '*' && filter[1] == '.' {
        filter.skip(2)
    } else {
        filter
    }
}

/// Whether a file name passes a filter: without a filter every name does,
/// with one only a name whose extension is the bare filter, letter for letter.
pub open spec fn filter_admits(filter: Option<Seq<char>>, name: Seq<char>) -> bool {
    match filter {
        None => true,
        Some(f) => extension_of(name) == Some(bare_filter(f)),
    }
}

/// `name` below `root`, with exactly one `/` between them.
pub open spec fn join_path(root: Seq<char>, name: Seq<char>) -> Seq<char> {
    if root.len() == 0 {
        name
    } else if root.last() == '/' {
        root + name
    } else {
        root + seq!['/'] + name
    }
}

/// `last_index` is the place of the last occurrence: the character stands
/// there and nowhere behind it, and -1 means that it stands nowhere.
pub proof fn lemma_last_index(s: Seq<char>, c: char)
    ensures
        -1 <= last_index(s, c) < s.len(),
        last_index(s, c) >= 0 ==> s[last_index(s, c)] == c,
        forall|j: int| last_index(s, c) < j < s.len() ==> s[j] != c,
    decreases s.len(),
{
    if s.len() > 0 && s.last() != c {
        let front = s.drop_last();
        lemma_last_index(front, c);
        assert forall|j: int| last_index(s, c) < j < s.len() implies s[j] != c by {
            if j < front.len() {
                assert(front[j] == s[j]);
            }
        }
    }
}

/// A base name holds no `/`.
pub proof fn lemma_base_name_has_no_slash(path: Seq<char>)
    ensures
        !base_name_of(path).contains('/'),
        last_index(base_name_of(path), '/') == -1,
{
    lemma_last_index(path, '/');
    let name = base_name_of(path);
    lemma_last_index(name, '/');
}

/// What is put behind a sequence does not move its last `c`, as long as it
/// holds no `c` itself.
proof fn lemma_last_index_of_longer(front: Seq<char>, back: Seq<char>, c: char)
    requires
        last_index(back, c) == -1,
    ensures
        last_index(front + back, c) == last_index(front, c),
    decreases back.len(),
{
    if back.len() > 0 {
        assert((front + back).drop_last() =~= front + back.drop_last());
        lemma_last_index_of_longer(front, back.drop_last(), c);
    }
}

/// What is written for an item keeps the item's base name and lies right
/// below the destination root: the base name of the output path is the base
/// name of the item.
pub proof fn lemma_output_keeps_base_name(root: Seq<char>, item: Seq<char>)
    ensures
        base_name_of(join_path(root, base_name_of(item))) == base_name_of(item),
{
    let name = base_name_of(item);
    lemma_base_name_has_no_slash(item);
    if root.len() > 0 && root.last() == '/' {
        lemma_last_index_of_longer(root, name, '/');
    } else if root.len() > 0 {
        lemma_last_index_of_longer(root + seq!['/'], name, '/');
    }
}

/// The characters of `s`, one by one.
pub fn chars_of(s: &str) -> (v: Vec<char>)
    ensures
        v@ == s@,
{
    let mut v: Vec<char> = Vec::new();
    for c in it: s.chars()
        invariant
            v@ == it.seq().take(it.index() as int),
            it.seq() == s@,
    {
        v.push(c);
    }
    v
}

/// Where the last `c` of `s` stands.
pub fn last_index_of(s: &Vec<char>, c: char) -> (r: Option<usize>)
    ensures
        match r {
            Some(i) => last_index(s@, c) == i && i < s.len(),
            None => last_index(s@, c) == -1,
        },
{
    let mut i: usize = s.len();
    assert(s@.take(i as int) =~= s@);
    while i > 0
        invariant
            i <= s.len(),
            last_index(s@, c) == last_index(s@.take(i as int), c),
        decreases i,
    {
        if s[i - 1] == c {
            return Some(i - 1);
        }
        assert(s@.take(i as int).drop_last() =~= s@.take(i - 1));
        i = i - 1;
    }
    None
}

/// The base name of a path.
pub fn base_name(path: &str) -> (name: String)
    ensures
        name@ == base_name_of(path@),
{
    let chars = chars_of(path);
    let start: usize = match last_index_of(&chars, '/') {
        Some(i) => i + 1,
        None => 0,
    };
    path.substring_char(start, chars.len()).to_owned()
}

/// The extension of a file name, where it has one.
pub fn extension(name: &str) -> (ext: Option<String>)
    ensures
        match ext {
            Some(e) => extension_of(name@) == Some(e@),
            None => extension_of(name@) is None,
        },
{
    let chars = chars_of(name);
    match last_index_of(&chars, '.') {
        Some(dot) => {
            if dot == 0 {
                None
            } else {
                Some(name.substring_char(dot + 1, chars.len()).to_owned())
            }
        },
        None => None,
    }
}

/// The filter as it is compared: without a leading `*.`.
pub fn strip_wildcard(filter: &str) -> (bare: String)
    ensures
        bare@ == bare_filter(filter@),
{
    let chars = chars_of(filter);
    if chars.len() >= 2 && chars[0] == '*' && chars[1] == '.' {
        filter.substring_char(2, chars.len()).to_owned()
    } else {
        filter.to_owned()
    }
}

/// Whether `name` passes `filter`.
pub fn admits(filter: &Option<String>, name: &str) -> (ok: bool)
    ensures
        ok == filter_admits(
            match *filter {
                Some(f) => Some(f@),
                None => None,
            },
            name@,
        ),
{
    match filter {
        None => true,
        Some(f) => {
            let bare = strip_wildcard(f.as_str());
            match extension(name) {
                Some(e) => e == bare,
                None => false,
            }
        },
    }
}

/// The path of `name` below `root`.
pub fn join(root: &str, name: &str) -> (path: String)
    ensures
        path@ == join_path(root@, name@),
{
    let chars = chars_of(root);
    if chars.len() == 0 {
        name.to_owned()
    } else if chars[chars.len() - 1] == '/' {
        root.to_owned().concat(name)
    } else {
        proof {
            reveal_strlit("/");
        }
        root.to_owned().concat("/").concat(name)
    }
}

} // verus!
