//! File paths as texts in which slashes separate components.

use vstd::prelude::*;

use crate::text::{opt_text, pieces, same, split, texts};
use crate::seqs::{lemma_filter_one, lemma_filter_step};

verus! {

/// The test for pieces of a path that name something: neither empty nor `.`.
pub open spec fn is_component() -> spec_fn(Seq<char>) -> bool {
    |piece: Seq<char>| piece.len() > 0 && piece != "."@
}

/// The components of a path. Repeated slashes and `.` do not count.
pub open spec fn components(path: Seq<char>) -> Seq<Seq<char>> {
    pieces(path, '/').filter(is_component())
}

/// The last component of a path, unless it is `..`.
pub open spec fn file_name(path: Seq<char>) -> Option<Seq<char>> {
    let parts = components(path);
    if parts.len() > 0 && parts.last() != ".."@ {
        Some(parts.last())
    } else {
        None
    }
}

/// The name of the directory that holds the last component of a path, unless it
/// is `..`.
pub open spec fn parent_name(path: Seq<char>) -> Option<Seq<char>> {
    let parts = components(path);
    if parts.len() > 1 && parts[parts.len() - 2] != ".."@ {
        Some(parts[parts.len() - 2])
    } else {
        None
    }
}

/// The name of an entry of a directory: a component, other than `..`.
pub open spec fn is_entry_name(name: Seq<char>) -> bool {
    &&& is_component()(name)
    &&& name != ".."@
    &&& forall|i: int| 0 <= i < name.len() ==> #[trigger] name[i] != '/'
}

/// The path of an entry of a directory.
pub open spec fn entry_path(dir: Seq<char>, name: Seq<char>) -> Seq<char> {
    dir.push('/') + name
}

/// The components of a path.
pub(crate) fn split_path(path: &str) -> (out: Vec<String>)
    ensures
        texts(out@) == components(path@),
{
    let all: Vec<String> = split(path, '/');
    let ghost model = texts(all@);
    let mut out: Vec<String> = Vec::new();
    assert(texts(out@) =~= model.take(0).filter(is_component())) by {
        reveal(Seq::filter);
    }
    for i in 0..all.len()
        invariant
            model == texts(all@),
            texts(out@) == model.take(i as int).filter(is_component()),
    {
        let ghost before = texts(out@);
        proof {
            lemma_filter_step(model, i as int, is_component());
        }
        if !all[i].as_str().is_empty() && !same(all[i].as_str(), ".") {
            out.push(all[i].clone());
            assert(texts(out@) =~= before.push(model[i as int]));
        }
    }
    assert(model.take(model.len() as int) =~= model);
    out
}

/// The last component of a path, unless it is `..`.
pub(crate) fn find_file_name(path: &str) -> (out: Option<String>)
    ensures
        opt_text(out) == file_name(path@),
{
    let parts: Vec<String> = split_path(path);
    let n: usize = parts.len();
    if n > 0 && !same(parts[n - 1].as_str(), "..") {
        assert(texts(parts@).last() == parts@[n - 1]@);
        Some(parts[n - 1].clone())
    } else {
        assert(n > 0 ==> texts(parts@).last() == parts@[n - 1]@);
        None
    }
}

/// The name of the directory that holds the last component of a path, unless it
/// is `..`.
pub(crate) fn find_parent_name(path: &str) -> (out: Option<String>)
    ensures
        opt_text(out) == parent_name(path@),
{
    let parts: Vec<String> = split_path(path);
    let n: usize = parts.len();
    if n > 1 {
        assert(texts(parts@)[n - 2] == parts@[n - 2]@);
        if !same(parts[n - 2].as_str(), "..") {
            return Some(parts[n - 2].clone());
        }
    }
    None
}

/// The pieces of a path and one more, which holds no slash.
proof fn lemma_pieces_of_entry(dir: Seq<char>, name: Seq<char>)
    requires
        forall|i: int| 0 <= i < name.len() ==> #[trigger] name[i] != '/',
    ensures
        pieces(entry_path(dir, name), '/') == pieces(dir, '/').push(name),
    decreases name.len(),
{
    let path = entry_path(dir, name);
    if name.len() == 0 {
        assert(path =~= dir.push('/'));
        assert(path.drop_last() =~= dir);
        assert(name =~= Seq::empty());
    } else {
        let init = name.drop_last();
        assert(path.drop_last() =~= entry_path(dir, init));
        assert(path.last() == name.last());
        assert(name[name.len() - 1] != '/');
        assert forall|i: int| 0 <= i < init.len() implies #[trigger] init[i] != '/' by {
            assert(init[i] == name[i]);
        }
        lemma_pieces_of_entry(dir, init);
        assert(init.push(name.last()) =~= name);
        assert(pieces(path, '/') =~= pieces(dir, '/').push(name));
    }
}

/// The path of an entry of a directory has the directory's components and the
/// entry's name: the name is the file's, and the directory's own is its parent's.
pub proof fn law_entry_path(dir: Seq<char>, name: Seq<char>)
    requires
        is_entry_name(name),
    ensures
        components(entry_path(dir, name)) == components(dir).push(name),
        file_name(entry_path(dir, name)) == Some(name),
        parent_name(entry_path(dir, name)) == file_name(dir),
{
    lemma_pieces_of_entry(dir, name);
    let all = pieces(entry_path(dir, name), '/');
    let n = pieces(dir, '/').len() as int;
    lemma_filter_step(all, n, is_component());
    assert(all.take(n + 1) =~= all);
    assert(all.take(n) =~= pieces(dir, '/'));
}

/// A piece after a slash is one more component, unless it is empty or `.`: then
/// the components are those of the path before the slash. A piece alone is a path
/// with that component only.
pub proof fn law_components(dir: Seq<char>, piece: Seq<char>)
    requires
        forall|i: int| 0 <= i < piece.len() ==> #[trigger] piece[i] != '/',
    ensures
        entry_path(dir, piece) == dir + "/"@ + piece,
        piece.len() == 0 || piece == "."@ ==> components(dir + "/"@ + piece) == components(dir)
            && components(piece) == Seq::<Seq<char>>::empty(),
        piece.len() > 0 && piece != "."@ ==> components(dir + "/"@ + piece) == components(dir)
            + seq![piece] && components(piece) == seq![piece],
{
    reveal_strlit("/");
    assert(entry_path(dir, piece) =~= dir + "/"@ + piece);
    lemma_pieces_of_entry(dir, piece);
    let all = pieces(entry_path(dir, piece), '/');
    let n = pieces(dir, '/').len() as int;
    lemma_filter_step(all, n, is_component());
    assert(all.take(n + 1) =~= all);
    assert(all.take(n) =~= pieces(dir, '/'));
    assert(components(dir).push(piece) =~= components(dir) + seq![piece]);
    lemma_pieces_of_one(piece);
    lemma_filter_one(piece, is_component());
}

/// A text without a slash is its only piece.
proof fn lemma_pieces_of_one(piece: Seq<char>)
    requires
        forall|i: int| 0 <= i < piece.len() ==> #[trigger] piece[i] != '/',
    ensures
        pieces(piece, '/') == seq![piece],
    decreases piece.len(),
{
    if piece.len() == 0 {
        assert(piece =~= Seq::empty());
    } else {
        let init = piece.drop_last();
        assert forall|i: int| 0 <= i < init.len() implies #[trigger] init[i] != '/' by {
            assert(init[i] == piece[i]);
        }
        lemma_pieces_of_one(init);
        assert(piece[piece.len() - 1] != '/');
        assert(init.push(piece.last()) =~= piece);
        assert(pieces(piece, '/') =~= seq![piece]);
    }
}

/// A path's file name is its last component, and its parent's name the one before;
/// `..` is neither, nor is there one where there are too few components. A text is
/// the name of an entry if it is a component without a slash and not `..`.
pub proof fn law_names_of_a_path(path: Seq<char>, name: Seq<char>)
    ensures
        ({
            let parts = components(path);
            let n = parts.len() as int;
            &&& file_name(path) == Some(name) <==> n >= 1 && parts[n - 1] == name && name != ".."@
            &&& parent_name(path) == Some(name) <==> n >= 2 && parts[n - 2] == name && name
                != ".."@
            &&& is_entry_name(name) <==> name.len() > 0 && name != "."@ && name != ".."@
                && !name.contains('/')
        }),
{
    if is_entry_name(name) && name.contains('/') {
        let i = choose|i: int| 0 <= i < name.len() && name[i] == '/';
        assert(name[i] == '/');
    }
    if !name.contains('/') {
        assert forall|i: int| 0 <= i < name.len() implies #[trigger] name[i] != '/' by {}
    }
}

} // verus!
