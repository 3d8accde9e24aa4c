//! Paths, as texts with `/` between their parts.

use vstd::prelude::*;
use vstd::string::StringExecFns;

use crate::text;

verus! {

/// A path below another. An absolute path stays what it is.
pub open spec fn joined(base: Seq<char>, name: Seq<char>) -> Seq<char> {
    if name.len() > 0 && name[0] == '/' {
        name
    } else if base.len() == 0 || base.last() == '/' {
        base + name
    } else {
        base + "/"@ + name
    }
}

/// A path below another. An absolute path stays what it is.
pub fn path_join(base: &str, name: &str) -> (r: String)
    ensures
        r@ == joined(base@, name@),
{
    let base_len: usize = base.unicode_len();
    if name.unicode_len() > 0 && name.get_char(0) == '/' {
        String::from_str(name)
    } else if base_len == 0 || base.get_char(base_len - 1) == '/' {
        text::concat2(base, name)
    } else {
        text::concat3(base, "/", name)
    }
}

/// The place of the last `c`, or -1.
pub open spec fn last_place(s: Seq<char>, c: char) -> int
    decreases s.len(),
{
    if s.len() == 0 {
        -1
    } else if s.last() == c {
        s.len() - 1
    } else {
        last_place(s.drop_last(), c)
    }
}

proof fn lemma_last_place(s: Seq<char>, c: char, n: int)
    requires
        -1 <= n < s.len(),
        n >= 0 ==> s[n] == c,
        forall|i: int| n < i < s.len() ==> s[i] != c,
    ensures
        last_place(s, c) == n,
    decreases s.len(),
{
    if s.len() > 0 && s.last() != c {
        lemma_last_place(s.drop_last(), c, n);
    }
}

/// The number of characters up to the last `c`, that one included.
fn after_last(s: &str, c: char) -> (r: usize)
    ensures
        r == last_place(s@, c) + 1,
        r <= s@.len(),
{
    let chars = text::chars_of(s);
    let mut to: usize = chars.len();
    while to > 0 && chars[to - 1] != c
        invariant
            to <= chars@.len(),
            forall|i: int| to <= i < chars@.len() ==> chars@[i] != c,
        decreases to,
    {
        to -= 1;
    }
    proof {
        lemma_last_place(s@, c, to - 1);
    }
    to
}

/// The directory that holds a path: the part before the last `/`, which for a path
/// at the root is the root, and nothing where there is no `/`.
pub open spec fn parent(path: Seq<char>) -> Seq<char> {
    let slash = last_place(path, '/');
    if slash < 0 {
        seq![]
    } else if slash == 0 {
        "/"@
    } else {
        path.take(slash)
    }
}

/// The directory that holds a path.
pub fn parent_dir(path: &str) -> (r: String)
    ensures
        r@ == parent(path@),
{
    let to: usize = after_last(path, '/');
    if to == 0 {
        assert(parent(path@) =~= seq![]);
        String::new()
    } else if to == 1 {
        String::from_str("/")
    } else {
        let r = path.substring_char(0, to - 1);
        assert(path@.subrange(0, to - 1) =~= path@.take(to - 1));
        String::from_str(r)
    }
}

/// The last part of a path.
pub open spec fn file_name(path: Seq<char>) -> Seq<char> {
    path.skip(last_place(path, '/') + 1)
}

/// The extension of a path: what follows the last dot of its last part. A dot in
/// the first place starts no extension.
pub open spec fn extension(path: Seq<char>) -> Seq<char> {
    let name = file_name(path);
    let dot = last_place(name, '.');
    if dot <= 0 {
        seq![]
    } else {
        name.skip(dot + 1)
    }
}

/// The extension of a path, without the dot; empty where there is none.
pub fn file_extension(path: &str) -> (r: String)
    ensures
        r@ == extension(path@),
{
    let from: usize = after_last(path, '/');
    let len: usize = path.unicode_len();
    let name = path.substring_char(from, len);
    assert(path@.subrange(from as int, len as int) =~= file_name(path@));
    let behind: usize = after_last(name, '.');
    if behind <= 1 {
        assert(extension(path@) =~= seq![]);
        String::new()
    } else {
        let name_len: usize = name.unicode_len();
        let r = name.substring_char(behind, name_len);
        assert(name@.subrange(behind as int, name_len as int) =~= name@.skip(behind as int));
        String::from_str(r)
    }
}

/// The directory with the examples: where the override says, else `examples` next
/// to the directory that the server was built in.
pub open spec fn root(override_dir: Option<Seq<char>>, manifest_dir: Seq<char>) -> Seq<char> {
    match override_dir {
        Some(dir) => dir,
        None => joined(joined(manifest_dir, ".."@), "examples"@),
    }
}

/// The directory with the examples.
pub fn examples_root(override_dir: Option<String>, manifest_dir: &str) -> (r: String)
    ensures
        r@ == root(text::opt_text(override_dir), manifest_dir@),
{
    match override_dir {
        Some(dir) => dir,
        None => path_join(path_join(manifest_dir, "..").as_str(), "examples"),
    }
}

// ------------------------------------------------------------------------ laws

/// Whether a text is the name of a file, and not a longer path.
pub open spec fn is_plain_name(name: Seq<char>) -> bool {
    name.len() > 0 && !name.contains('/')
}

/// What follows the last dot of a name is its extension.
pub proof fn lemma_extension(name: Seq<char>, dot: int)
    requires
        0 < dot < name.len(),
        name[dot] == '.',
        forall|i: int| dot < i < name.len() ==> name[i] != '.',
        forall|i: int| 0 <= i < name.len() ==> name[i] != '/',
    ensures
        is_plain_name(name),
        extension(name) == name.skip(dot + 1),
{
    lemma_last_place(name, '/', -1);
    assert(file_name(name) =~= name);
    lemma_last_place(name, '.', dot);
}

/// A path below a directory ends in the name that it was made from.
pub proof fn lemma_joined_ends_in_name(base: Seq<char>, name: Seq<char>)
    requires
        is_plain_name(name),
    ensures
        file_name(joined(base, name)) == name,
        extension(joined(base, name)) == extension(name),
{
    reveal_strlit("/");
    assert forall|i: int| 0 <= i < name.len() implies name[i] != '/' by {
        if name[i] == '/' {
            assert(name.contains(name[i]));
        }
    }
    let all = joined(base, name);
    let head = all.len() - name.len();
    assert(all.skip(head) =~= name);
    assert forall|i: int| head <= i < all.len() implies all[i] != '/' by {
        assert(all[i] == name[i - head]);
    }
    assert(head > 0 ==> all[head - 1] == '/');
    lemma_last_place(all, '/', head - 1);
    lemma_last_place(name, '/', -1);
    assert(file_name(name) =~= name);
}

/// A file lies in the directory that its path was made from.
pub proof fn lemma_joined_lies_in_base(base: Seq<char>, name: Seq<char>)
    requires
        base.len() > 0,
        base.last() != '/',
        is_plain_name(name),
    ensures
        parent(joined(base, name)) == base,
{
    reveal_strlit("/");
    assert forall|i: int| 0 <= i < name.len() implies name[i] != '/' by {
        if name[i] == '/' {
            assert(name.contains(name[i]));
        }
    }
    let all = joined(base, name);
    let head = base.len() as int;
    assert forall|i: int| head < i < all.len() implies all[i] != '/' by {
        assert(all[i] == name[i - head - 1]);
    }
    assert(all[head] == '/');
    lemma_last_place(all, '/', head);
    assert(all.take(head) =~= base);
}

/// Different names give different paths below one directory.
pub proof fn lemma_joined_is_injective(base: Seq<char>, a: Seq<char>, b: Seq<char>)
    requires
        is_plain_name(a),
        is_plain_name(b),
        joined(base, a) == joined(base, b),
    ensures
        a == b,
{
    if a[0] == '/' {
        assert(a.contains(a[0]));
    }
    if b[0] == '/' {
        assert(b.contains(b[0]));
    }
    let whole = joined(base, a);
    let head = whole.len() - a.len();
    assert(whole.len() == joined(base, b).len());
    assert(a.len() == b.len());
    assert(whole.skip(head) =~= a);
    assert(whole.skip(head) =~= b);
}

/// An absolute path is not put below anything; any other name is put below the base,
/// with one slash between.
pub proof fn lemma_joined(base: Seq<char>, name: Seq<char>)
    ensures
        name.len() > 0 && name[0] == '/' ==> joined(base, name) == name,
        (name.len() == 0 || name[0] != '/') && base.len() > 0 && base.last() != '/' ==> joined(
            base,
            name,
        ) == base + seq!['/'] + name && joined(base + seq!['/'], name) == joined(base, name),
        (name.len() == 0 || name[0] != '/') ==> joined(seq![], name) == name,
{
    reveal_strlit("/");
    assert("/"@ =~= seq!['/']);
    assert(seq![] + name =~= name);
}

/// A path is its directory, a slash and its last part, where it has a slash that is not
/// at its start; the last part has no slash.
pub proof fn lemma_path_falls_apart(path: Seq<char>)
    ensures
        !file_name(path).contains('/'),
        path.contains('/') && parent(path).len() > 1 ==> path == parent(path) + seq!['/']
            + file_name(path),
        !path.contains('/') ==> parent(path).len() == 0 && file_name(path) == path,
{
    reveal_strlit("/");
    lemma_place_is_last(path, '/');
    let n = last_place(path, '/');
    let name = file_name(path);
    assert forall|i: int| 0 <= i < name.len() implies name[i] != '/' by {
        assert(name[i] == path[n + 1 + i]);
    }
    if n > 0 {
        assert(path =~= parent(path) + seq!['/'] + name);
    } else if n < 0 {
        assert(name =~= path);
    } else {
        assert(path.contains(path[0]));
    }
}

proof fn lemma_place_is_last(s: Seq<char>, c: char)
    ensures
        -1 <= last_place(s, c) < s.len(),
        last_place(s, c) >= 0 ==> s[last_place(s, c)] == c,
        forall|i: int| last_place(s, c) < i < s.len() ==> s[i] != c,
    decreases s.len(),
{
    if s.len() > 0 && s.last() != c {
        lemma_place_is_last(s.drop_last(), c);
        assert forall|i: int| last_place(s, c) < i < s.len() implies s[i] != c by {
            if i < s.len() - 1 {
                assert(s[i] == s.drop_last()[i]);
            }
        }
    }
}

/// A name without a dot has no extension, and neither has one whose only dot stands in
/// the first place.
pub proof fn lemma_no_extension(name: Seq<char>)
    requires
        is_plain_name(name),
        !name.drop_first().contains('.'),
    ensures
        extension(name).len() == 0,
{
    lemma_place_is_last(name, '/');
    if last_place(name, '/') >= 0 {
        assert(name.contains(name[last_place(name, '/')]));
    }
    assert(file_name(name) =~= name);
    lemma_place_is_last(name, '.');
    let dot = last_place(name, '.');
    if dot > 0 {
        assert(name.drop_first()[dot - 1] == '.');
        assert(name.drop_first().contains(name.drop_first()[dot - 1]));
    }
}

} // verus!
