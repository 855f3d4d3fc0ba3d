//! Paths as text, with `/` between their parts.

use vstd::prelude::*;

use crate::text;

verus! {

/// `rel` below `base`: an absolute `rel` stands for itself; otherwise the two
/// are put together with one `/`, unless `base` is empty or ends with one.
pub open spec fn path_below(base: Seq<char>, rel: Seq<char>) -> Seq<char> {
    if rel.len() > 0 && rel[0] == '/' {
        rel
    } else if base.len() == 0 || base.last() == '/' {
        base + rel
    } else {
        base + "/"@ + rel
    }
}

/// `rel` below `base`.
pub fn join_path(base: &str, rel: &str) -> (path: String)
    ensures
        path@ == path_below(base@, rel@),
{
    let tail = text::chars_of(rel);
    if tail.len() > 0 && tail[0] == '/' {
        return rel.to_owned();
    }
    let head = text::chars_of(base);
    let mut path = base.to_owned();
    if head.len() > 0 && head[head.len() - 1] != '/' {
        path.append("/");
    }
    path.append(rel);
    path
}

/// Different parts below one path are different.
pub proof fn lemma_paths_differ(base: Seq<char>, one: Seq<char>, other: Seq<char>)
    requires
        one.len() > 0 && one[0] != '/',
        other.len() > 0 && other[0] != '/',
        one != other,
    ensures
        path_below(base, one) != path_below(base, other),
{
    let a = path_below(base, one);
    let b = path_below(base, other);
    if a == b {
        assert(a.skip(a.len() - one.len()) =~= one);
        assert(b.skip(b.len() - other.len()) =~= other);
    }
}

/// The last part of a path, which a `/` or `/.` behind it does not change.
pub open spec fn last_part(path: Seq<char>) -> Seq<char>
    decreases path.len(),
{
    if path.len() == 0 {
        path
    } else if path.last() == '/' {
        last_part(path.drop_last())
    } else if path.len() > 1 && path.last() == '.' && path[path.len() - 2] == '/' {
        last_part(path.drop_last())
    } else {
        after_last(path, '/')
    }
}

/// What stands behind the last `mark`; everything where there is none.
pub open spec fn after_last(s: Seq<char>, mark: char) -> Seq<char>
    decreases s.len(),
{
    if s.len() == 0 || s.last() == mark {
        Seq::empty()
    } else {
        after_last(s.drop_last(), mark).push(s.last())
    }
}

/// The extension of a file: what stands behind the last dot of its name, if
/// something stands before that dot. `..` is no name.
pub open spec fn extension_of(path: Seq<char>) -> Option<Seq<char>> {
    let name = last_part(path);
    let extension = after_last(name, '.');
    if name == ".."@ || extension.len() + 1 >= name.len() {
        None
    } else {
        Some(extension)
    }
}

proof fn lemma_after_last(s: Seq<char>, mark: char, from: int)
    requires
        0 <= from <= s.len(),
        from > 0 ==> s[from - 1] == mark,
        forall|i: int| from <= i < s.len() ==> s[i] != mark,
    ensures
        after_last(s, mark) == s.skip(from),
    decreases s.len(),
{
    if from < s.len() {
        lemma_after_last(s.drop_last(), mark, from);
        assert(s.drop_last().skip(from).push(s.last()) =~= s.skip(from));
    } else {
        assert(s.skip(from) =~= Seq::empty());
    }
}

/// Where what stands behind the last `mark` of `chars[..end]` begins.
fn behind_last(chars: &Vec<char>, end: usize, mark: char) -> (from: usize)
    requires
        end <= chars@.len(),
    ensures
        from <= end,
        after_last(chars@.take(end as int), mark) == chars@.subrange(from as int, end as int),
        from > 0 ==> chars@[from - 1] == mark,
{
    let mut from: usize = end;
    while from > 0 && chars[from - 1] != mark
        invariant
            from <= end <= chars@.len(),
            forall|i: int| from <= i < end ==> chars@[i] != mark,
        decreases from,
    {
        from = from - 1;
    }
    proof {
        let s = chars@.take(end as int);
        lemma_after_last(s, mark, from as int);
        assert(s.skip(from as int) =~= chars@.subrange(from as int, end as int));
    }
    from
}

/// The extension of a file.
pub fn file_extension(path: &str) -> (extension: Option<String>)
    ensures
        match extension {
            Some(e) => extension_of(path@) == Some(e@),
            None => extension_of(path@) is None,
        },
{
    let chars = text::chars_of(path);
    let mut end: usize = chars.len();
    assert(chars@.take(end as int) =~= path@);
    while end > 0 && (chars[end - 1] == '/' || (end > 1 && chars[end - 1] == '.' && chars[end - 2]
        == '/'))
        invariant
            end <= chars@.len(),
            last_part(chars@.take(end as int)) == last_part(path@),
        decreases end,
    {
        assert(chars@.take(end as int).drop_last() =~= chars@.take(end - 1));
        end = end - 1;
    }
    let from: usize = behind_last(&chars, end, '/');
    let name = text::string_of(&chars, from, end);
    assert(name@ == last_part(path@)) by {
        if end == 0 {
            assert(name@ =~= chars@.take(0));
        }
    }
    if text::equal(name.as_str(), "..") {
        return None;
    }
    let letters = text::chars_of(name.as_str());
    let dot: usize = behind_last(&letters, letters.len(), '.');
    assert(letters@.take(letters@.len() as int) =~= letters@);
    if dot <= 1 {
        None
    } else {
        Some(text::string_of(&letters, dot, letters.len()))
    }
}

/// A path below another ends with its own parts and begins with the other, with
/// just one mark between; an absolute path stays as it is.
pub proof fn law_paths_are_put_together(base: Seq<char>, rel: Seq<char>)
    ensures
        text::has_suffix(path_below(base, rel), rel),
        rel.len() > 0 && rel[0] == '/' ==> path_below(base, rel) == rel,
        rel.len() == 0 || rel[0] != '/' ==> text::has_prefix(path_below(base, rel), base),
        (rel.len() == 0 || rel[0] != '/') && base.len() > 0 && base.last() != '/' ==> path_below(
            base,
            rel,
        ) == base.push('/') + rel,
        (rel.len() == 0 || rel[0] != '/') && (base.len() == 0 || base.last() == '/') ==> path_below(
            base,
            rel,
        ) == base + rel,
{
    reveal_strlit("/");
    let whole = path_below(base, rel);
    assert(whole.skip(whole.len() - rel.len()) =~= rel);
    if rel.len() == 0 || rel[0] != '/' {
        assert(whole.take(base.len() as int) =~= base);
        if base.len() > 0 && base.last() != '/' {
            assert(whole =~= base.push('/') + rel);
        }
    }
}

/// The extension of a file is what stands behind the last dot of its name,
/// wherever the file is; a name without a dot behind its first character has
/// none.
pub proof fn law_extension_of_a_file(dir: Seq<char>, stem: Seq<char>, extension: Seq<char>)
    requires
        dir.len() == 0 || dir.last() == '/',
        stem.len() > 0,
        !stem.contains('/'),
        extension.len() > 0,
        !extension.contains('/'),
        !extension.contains('.'),
    ensures
        extension_of(dir + stem + seq!['.'] + extension) == Some(extension),
        extension_of(dir + seq!['.'] + extension) is None,
        extension_of(dir + extension) is None,
{
    lemma_no_mark(stem, '/');
    lemma_no_mark(extension, '/');
    lemma_no_mark(extension, '.');
    let name = stem + seq!['.'] + extension;
    assert forall|i: int| 0 <= i < name.len() implies name[i] != '/' by {}
    let path = dir + stem + seq!['.'] + extension;
    assert(path =~= dir + name);
    lemma_name_of(dir, name);
    lemma_after_last(name, '.', stem.len() as int + 1);
    assert(name.skip(stem.len() as int + 1) =~= extension);
    reveal_strlit("..");
    assert(name.last() == extension.last());
    let hidden = seq!['.'] + extension;
    assert forall|i: int| 0 <= i < hidden.len() implies hidden[i] != '/' by {}
    assert(dir + seq!['.'] + extension =~= dir + hidden);
    lemma_name_of(dir, hidden);
    lemma_after_last(hidden, '.', 1);
    lemma_name_of(dir, extension);
    lemma_after_last(extension, '.', 0);
    assert(extension.skip(0) =~= extension);
}

proof fn lemma_no_mark(s: Seq<char>, mark: char)
    requires
        !s.contains(mark),
    ensures
        forall|i: int| 0 <= i < s.len() ==> s[i] != mark,
{
    assert forall|i: int| 0 <= i < s.len() implies s[i] != mark by {
        if s[i] == mark {
            assert(s.contains(mark));
        }
    }
}

/// The last part of a path to a file is the name of the file.
proof fn lemma_name_of(dir: Seq<char>, name: Seq<char>)
    requires
        dir.len() == 0 || dir.last() == '/',
        name.len() > 0,
        name.last() != '.',
        forall|i: int| 0 <= i < name.len() ==> name[i] != '/',
    ensures
        last_part(dir + name) == name,
{
    let path = dir + name;
    lemma_after_last(path, '/', dir.len() as int);
    assert(path.skip(dir.len() as int) =~= name);
    assert(path.last() == name.last());
}

} // verus!
