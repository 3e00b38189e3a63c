//! Where the stores and their locks lie.

use crate::text::{chars_of, str_eq, texts, Text};
use vstd::prelude::*;
use vstd::string::*;

verus! {

/// The file of the connector store, in the home directory.
pub open spec fn store_file(home: Text) -> Text {
    home + "/web_model_connectors.yaml"@
}

/// The file of the connector store.
pub fn store_path(home: &str) -> (r: String)
    ensures
        r@ == store_file(home@),
{
    let mut p = home.to_owned();
    p.append("/web_model_connectors.yaml");
    p
}

/// The lock of the connector store, beside its file.
pub fn lock_path(home: &str) -> (r: String)
    ensures
        r@ == store_file(home@) + ".lock"@,
{
    let mut p = store_path(home);
    p.append(".lock");
    p
}

/// The lock under which relay decisions of a group are made. `group_dir` is the directory of the
/// group's ledger.
pub fn relay_lock_path(group_dir: &str) -> (r: String)
    ensures
        r@ == group_dir@ + "/state/ledger/coordination_relay.lock"@,
{
    let mut p = group_dir.to_owned();
    p.append("/state/ledger/coordination_relay.lock");
    p
}

/// What stands between the slashes of a path, empty pieces too.
pub open spec fn pieces(path: Text) -> Seq<Text>
    decreases path.len(),
{
    if path.len() == 0 {
        seq![Seq::empty()]
    } else {
        let before = pieces(path.drop_last());
        if path.last() == '/' {
            before.push(Seq::empty())
        } else {
            before.drop_last().push(before.last().push(path.last()))
        }
    }
}

/// Whether a piece of a path names something: it is not empty and not the dot for the directory
/// itself.
pub open spec fn is_name(piece: Text) -> bool {
    piece.len() > 0 && piece != "."@
}

/// The names along a path.
pub open spec fn names(path: Text) -> Seq<Text> {
    pieces(path).filter(|p: Text| is_name(p))
}

/// Whether a path begins at the root.
pub open spec fn is_rooted(path: Text) -> bool {
    path.len() > 0 && path[0] == '/'
}

/// Whether two paths are the same: both begin at the root, or at the dot, or neither, and they have
/// the same names. Repeated slashes, a slash at the end, and dots further on make no difference.
pub open spec fn is_same_path(a: Text, b: Text) -> bool {
    &&& is_rooted(a) == is_rooted(b)
    &&& (pieces(a)[0] == "."@) == (pieces(b)[0] == "."@)
    &&& names(a) == names(b)
}

proof fn lemma_pieces_len(path: Text)
    ensures
        pieces(path).len() > 0,
    decreases path.len(),
{
    if path.len() > 0 {
        lemma_pieces_len(path.drop_last());
    }
}

fn split(path: &str) -> (r: Vec<String>)
    ensures
        texts(r@) == pieces(path@),
        r@.len() > 0,
{
    let chars = chars_of(path);
    let mut r: Vec<String> = Vec::new();
    let mut current = String::new();
    let mut i: usize = 0;
    proof {
        assert(path@.take(0) =~= Seq::<char>::empty());
        assert(texts(r@).push(current@) =~= pieces(path@.take(0)));
    }
    while i < chars.len()
        invariant
            i <= chars@.len(),
            chars@ == path@,
            texts(r@).push(current@) == pieces(path@.take(i as int)),
        decreases chars@.len() - i,
    {
        let c: char = chars[i];
        proof {
            let t = path@.take(i + 1);
            assert(t.drop_last() =~= path@.take(i as int));
            assert(t.last() == c);
            assert(texts(r@).push(current@).drop_last() =~= texts(r@));
        }
        if c == '/' {
            let ghost b = r@;
            let ghost x = current@;
            r.push(current);
            current = String::new();
            proof {
                assert(texts(r@) =~= texts(b).push(x));
            }
        } else {
            current.push(c);
        }
        i += 1;
    }
    let ghost b = r@;
    let ghost x = current@;
    r.push(current);
    proof {
        assert(path@.take(i as int) =~= path@);
        assert(texts(r@) =~= texts(b).push(x));
    }
    r
}

fn names_of(all: &Vec<String>) -> (r: Vec<String>)
    ensures
        texts(r@) == texts(all@).filter(|p: Text| is_name(p)),
{
    let ghost f = |p: Text| is_name(p);
    let ghost s = texts(all@);
    let mut r: Vec<String> = Vec::new();
    let mut i: usize = 0;
    proof {
        reveal(Seq::filter);
        assert(texts(r@) =~= s.take(0).filter(f));
    }
    while i < all.len()
        invariant
            i <= all@.len(),
            s == texts(all@),
            f == (|p: Text| is_name(p)),
            texts(r@) == s.take(i as int).filter(f),
        decreases all@.len() - i,
    {
        proof {
            reveal(Seq::filter);
            assert(s.take(i + 1).drop_last() =~= s.take(i as int));
            assert(s.take(i + 1).last() == all@[i as int]@);
        }
        let piece = all[i].as_str();
        if !piece.is_empty() && !str_eq(piece, ".") {
            let ghost b = r@;
            r.push(piece.to_owned());
            proof {
                assert(texts(r@) =~= texts(b).push(all@[i as int]@));
            }
        }
        i += 1;
    }
    proof {
        assert(s.take(i as int) =~= s);
    }
    r
}

fn same_texts(a: &Vec<String>, b: &Vec<String>) -> (r: bool)
    ensures
        r == (texts(a@) == texts(b@)),
{
    if a.len() != b.len() {
        proof {
            assert(texts(a@).len() != texts(b@).len());
        }
        return false;
    }
    let mut i: usize = 0;
    while i < a.len()
        invariant
            i <= a@.len(),
            a@.len() == b@.len(),
            forall|j: int| 0 <= j < i ==> (#[trigger] a@[j])@ == b@[j]@,
        decreases a@.len() - i,
    {
        if !str_eq(a[i].as_str(), b[i].as_str()) {
            proof {
                assert(texts(a@)[i as int] != texts(b@)[i as int]);
            }
            return false;
        }
        i += 1;
    }
    proof {
        assert(texts(a@) =~= texts(b@));
    }
    true
}

proof fn lemma_rooted(path: Text)
    ensures
        is_rooted(path) <==> pieces(path).len() > 1 && pieces(path)[0].len() == 0,
        pieces(path).len() > 0,
    decreases path.len(),
{
    if path.len() > 0 {
        let d = path.drop_last();
        lemma_rooted(d);
        if d.len() == 0 {
            assert(pieces(d) == seq![Seq::<char>::empty()]);
            if path.last() == '/' {
                assert(pieces(path)[0].len() == 0);
            }
        } else {
            assert(is_rooted(path) == is_rooted(d));
            assert(d.push(path.last()) =~= path);
            lemma_first_piece(d, path.last());
        }
    }
}

proof fn lemma_first_piece(d: Text, c: char)
    requires
        d.len() > 0,
    ensures
        ({
            let now = pieces(d.push(c));
            let before = pieces(d);
            (now.len() > 1 && now[0].len() == 0) <==> (before.len() > 1 && before[0].len() == 0)
        }),
{
    lemma_pieces_len(d);
    assert(d.push(c).drop_last() =~= d);
    let before = pieces(d);
    if before.len() == 1 {
        lemma_one_piece(d);
    }
}

proof fn lemma_one_piece(d: Text)
    requires
        pieces(d).len() == 1,
    ensures
        pieces(d)[0] == d,
    decreases d.len(),
{
    if d.len() > 0 {
        lemma_pieces_len(d.drop_last());
        lemma_one_piece(d.drop_last());
        assert(d.drop_last().push(d.last()) =~= d);
    }
}

/// Whether two paths are the same.
pub fn same_path(a: &str, b: &str) -> (r: bool)
    ensures
        r == is_same_path(a@, b@),
{
    let x = split(a);
    let y = split(b);
    proof {
        lemma_rooted(a@);
        lemma_rooted(b@);
        assert(texts(x@)[0] == x@[0]@);
        assert(texts(y@)[0] == y@[0]@);
    }
    let a_root = x.len() > 1 && x[0].as_str().is_empty();
    let b_root = y.len() > 1 && y[0].as_str().is_empty();
    if a_root != b_root || str_eq(x[0].as_str(), ".") != str_eq(y[0].as_str(), ".") {
        return false;
    }
    let m = names_of(&x);
    let n = names_of(&y);
    same_texts(&m, &n)
}

} // verus!
