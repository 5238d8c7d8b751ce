//! Paths as the registry reads them: text split at `/` into components, the
//! separator of Unix-like systems, the only one these rules know.
//!
//! A project's location is stored relative to the root directory; these are
//! the rules that join it back to the root and that derive it from an
//! absolute directory.

use crate::error::RegistryError;
use crate::text::{joined, texts};
use vstd::prelude::*;
use vstd::string::*;

verus! {

/// The pieces of `p` between its separators, empty ones included.
pub open spec fn pieces(p: Seq<char>) -> Seq<Seq<char>>
    decreases p.len(),
{
    if p.len() == 0 {
        seq![Seq::empty()]
    } else {
        let rest = pieces(p.drop_last());
        if p.last() == '/' {
            rest.push(Seq::empty())
        } else {
            rest.update(rest.len() - 1, rest.last().push(p.last()))
        }
    }
}

/// A piece that names a step of a path: neither empty nor `.`.
pub open spec fn is_component(s: Seq<char>) -> bool {
    s.len() > 0 && s != seq!['.']
}

/// The pieces of `ps` that are components, in order.
pub open spec fn keep_components(ps: Seq<Seq<char>>) -> Seq<Seq<char>>
    decreases ps.len(),
{
    if ps.len() == 0 {
        Seq::empty()
    } else {
        let rest = keep_components(ps.drop_last());
        if is_component(ps.last()) {
            rest.push(ps.last())
        } else {
            rest
        }
    }
}

/// The components of a path: repeated separators and `.` steps do not count.
pub open spec fn components(p: Seq<char>) -> Seq<Seq<char>> {
    keep_components(pieces(p))
}

/// A path that starts at the file system's root.
pub open spec fn is_absolute(p: Seq<char>) -> bool {
    p.len() > 0 && p[0] == '/'
}

/// Two paths name the same place: both absolute or both relative, with the
/// same components.
pub open spec fn same_path(a: Seq<char>, b: Seq<char>) -> bool {
    is_absolute(a) == is_absolute(b) && components(a) == components(b)
}

/// `rel` taken from `base`, as `Path::join` does it: an absolute `rel` replaces
/// `base`; otherwise a separator goes between them unless `base` is empty or
/// already ends with one.
pub open spec fn path_join(base: Seq<char>, rel: Seq<char>) -> Seq<char> {
    if is_absolute(rel) {
        rel
    } else if base.len() == 0 || base.last() == '/' {
        base + rel
    } else {
        base + seq!['/'] + rel
    }
}

/// `dir` lies at or below `root`: the components of `root` begin those of `dir`.
pub open spec fn is_within(dir: Seq<char>, root: Seq<char>) -> bool {
    &&& is_absolute(dir) == is_absolute(root)
    &&& components(root).len() <= components(dir).len()
    &&& components(dir).subrange(0, components(root).len() as int) == components(root)
}

/// The components of `dir` below `root`, joined by separators.
pub open spec fn relative_to(dir: Seq<char>, root: Seq<char>) -> Seq<char> {
    joined(components(dir).skip(components(root).len() as int), seq!['/'])
}

proof fn lemma_pieces_nonempty(p: Seq<char>)
    ensures
        pieces(p).len() >= 1,
    decreases p.len(),
{
    if p.len() > 0 {
        lemma_pieces_nonempty(p.drop_last());
    }
}

/// No piece holds a separator.
proof fn lemma_pieces_no_separator(p: Seq<char>)
    ensures
        forall|i: int, k: int|
            0 <= i < pieces(p).len() && 0 <= k < pieces(p)[i].len() ==> pieces(p)[i][k] != '/',
    decreases p.len(),
{
    if p.len() > 0 {
        lemma_pieces_no_separator(p.drop_last());
        lemma_pieces_nonempty(p.drop_last());
    }
}

/// A text without separators is a single piece.
proof fn lemma_pieces_plain(s: Seq<char>)
    requires
        forall|k: int| 0 <= k < s.len() ==> s[k] != '/',
    ensures
        pieces(s) == seq![s],
    decreases s.len(),
{
    if s.len() > 0 {
        lemma_pieces_plain(s.drop_last());
        assert(s.drop_last().push(s.last()) =~= s);
        assert(pieces(s) =~= seq![s]);
    } else {
        assert(s =~= Seq::<char>::empty());
    }
}

/// A separator between two texts splits their pieces.
proof fn lemma_pieces_concat(a: Seq<char>, b: Seq<char>)
    ensures
        pieces(a + seq!['/'] + b) == pieces(a) + pieces(b),
    decreases b.len(),
{
    let ab = a + seq!['/'] + b;
    if b.len() == 0 {
        assert(ab.drop_last() =~= a);
        assert(pieces(ab) =~= pieces(a) + pieces(b));
    } else {
        lemma_pieces_concat(a, b.drop_last());
        lemma_pieces_nonempty(b.drop_last());
        assert(ab.drop_last() =~= a + seq!['/'] + b.drop_last());
        assert(pieces(ab) =~= pieces(a) + pieces(b));
    }
}

proof fn lemma_keep_concat(x: Seq<Seq<char>>, y: Seq<Seq<char>>)
    ensures
        keep_components(x + y) == keep_components(x) + keep_components(y),
    decreases y.len(),
{
    if y.len() == 0 {
        assert(x + y =~= x);
        assert(keep_components(x) + keep_components(y) =~= keep_components(x));
    } else {
        lemma_keep_concat(x, y.drop_last());
        assert((x + y).drop_last() =~= x + y.drop_last());
        if is_component(y.last()) {
            assert(keep_components(x + y) =~= keep_components(x) + keep_components(y));
        }
    }
}

proof fn lemma_keep_single(x: Seq<char>)
    ensures
        keep_components(seq![x]) == (if is_component(x) {
            seq![x]
        } else {
            Seq::empty()
        }),
{
    assert(seq![x].drop_last() =~= Seq::<Seq<char>>::empty());
    assert(keep_components(Seq::<Seq<char>>::empty()) =~= Seq::<Seq<char>>::empty());
    if is_component(x) {
        assert(Seq::<Seq<char>>::empty().push(x) =~= seq![x]);
    }
}

/// The empty path has no components.
proof fn lemma_components_empty()
    ensures
        components(Seq::empty()) == Seq::<Seq<char>>::empty(),
{
    lemma_keep_single(Seq::empty());
}

/// The components of a path joined at a separator are those of each side.
pub proof fn lemma_components_concat(a: Seq<char>, b: Seq<char>)
    ensures
        components(a + seq!['/'] + b) == components(a) + components(b),
{
    lemma_pieces_concat(a, b);
    lemma_keep_concat(pieces(a), pieces(b));
}

/// A trailing separator adds no component.
proof fn lemma_components_trailing_separator(a: Seq<char>)
    ensures
        components(a + seq!['/']) == components(a),
{
    lemma_components_concat(a, Seq::empty());
    assert(a + seq!['/'] + Seq::<char>::empty() =~= a + seq!['/']);
    lemma_components_empty();
    assert(components(a) + Seq::<Seq<char>>::empty() =~= components(a));
}

/// What `keep_components` keeps are components, and come from the pieces.
proof fn lemma_keep_no_separator(ps: Seq<Seq<char>>)
    requires
        forall|i: int, k: int| 0 <= i < ps.len() && 0 <= k < ps[i].len() ==> ps[i][k] != '/',
    ensures
        forall|i: int| 0 <= i < keep_components(ps).len() ==> is_component(#[trigger] keep_components(ps)[i]),
        forall|i: int, k: int|
            0 <= i < keep_components(ps).len() && 0 <= k < keep_components(ps)[i].len()
                ==> keep_components(ps)[i][k] != '/',
    decreases ps.len(),
{
    if ps.len() > 0 {
        let rest = ps.drop_last();
        assert forall|i: int, k: int|
            0 <= i < rest.len() && 0 <= k < rest[i].len() implies rest[i][k] != '/' by {
            assert(rest[i] == ps[i]);
        }
        lemma_keep_no_separator(rest);
        let kept = keep_components(ps);
        let last = ps[ps.len() - 1];
        assert(ps.last() == last);
        if is_component(last) {
            assert forall|i: int| 0 <= i < kept.len() implies is_component(#[trigger] kept[i]) by {
                if i < kept.len() - 1 {
                    assert(kept[i] == keep_components(rest)[i]);
                }
            }
            assert forall|i: int, k: int|
                0 <= i < kept.len() && 0 <= k < kept[i].len() implies kept[i][k] != '/' by {
                if i < kept.len() - 1 {
                    assert(kept[i] == keep_components(rest)[i]);
                } else {
                    assert(kept[i] == last);
                }
            }
        }
    }
}

/// The components of any path are components without separators.
pub proof fn lemma_components_plain(p: Seq<char>)
    ensures
        forall|i: int| 0 <= i < components(p).len() ==> is_component(#[trigger] components(p)[i]),
        forall|i: int, k: int|
            0 <= i < components(p).len() && 0 <= k < components(p)[i].len()
                ==> components(p)[i][k] != '/',
{
    lemma_pieces_no_separator(p);
    lemma_keep_no_separator(pieces(p));
}

/// Joining starts with the first part.
proof fn lemma_joined_starts_with_first(cs: Seq<Seq<char>>, sep: Seq<char>)
    requires
        cs.len() >= 1,
    ensures
        joined(cs, sep).len() >= cs[0].len(),
        joined(cs, sep).subrange(0, cs[0].len() as int) == cs[0],
    decreases cs.len(),
{
    if cs.len() > 1 {
        lemma_joined_starts_with_first(cs.drop_last(), sep);
        let j = joined(cs.drop_last(), sep);
        assert((j + sep + cs.last()).subrange(0, cs[0].len() as int) =~= j.subrange(
            0,
            cs[0].len() as int,
        ));
    }
}

/// Components joined by separators split back into the same components.
proof fn lemma_components_of_joined(cs: Seq<Seq<char>>)
    requires
        forall|i: int| 0 <= i < cs.len() ==> is_component(#[trigger] cs[i]),
        forall|i: int, k: int| 0 <= i < cs.len() && 0 <= k < cs[i].len() ==> cs[i][k] != '/',
    ensures
        components(joined(cs, seq!['/'])) == cs,
    decreases cs.len(),
{
    if cs.len() == 0 {
        lemma_components_empty();
        assert(components(joined(cs, seq!['/'])) =~= cs);
    } else if cs.len() == 1 {
        lemma_pieces_plain(cs[0]);
        lemma_keep_single(cs[0]);
        assert(components(joined(cs, seq!['/'])) =~= cs);
    } else {
        lemma_components_of_joined(cs.drop_last());
        lemma_components_concat(joined(cs.drop_last(), seq!['/']), cs.last());
        lemma_pieces_plain(cs.last());
        lemma_keep_single(cs.last());
        assert(cs.drop_last() + seq![cs.last()] =~= cs);
    }
}

/// A directory within the root is reached again by joining the root with the
/// directory's path relative to it.
pub proof fn lemma_register_rejoins(dir: Seq<char>, root: Seq<char>)
    requires
        is_within(dir, root),
    ensures
        same_path(path_join(root, relative_to(dir, root)), dir),
{
    let n = components(root).len() as int;
    let cs = components(dir).skip(n);
    let rel = relative_to(dir, root);
    lemma_components_plain(dir);
    assert forall|i: int| 0 <= i < cs.len() implies is_component(#[trigger] cs[i]) by {
        assert(cs[i] == components(dir)[n + i]);
    }
    assert forall|i: int, k: int| 0 <= i < cs.len() && 0 <= k < cs[i].len() implies cs[i][k]
        != '/' by {
        assert(cs[i] == components(dir)[n + i]);
    }
    lemma_components_of_joined(cs);
    assert(components(dir) =~= components(root) + cs);
    if cs.len() > 0 {
        lemma_joined_starts_with_first(cs, seq!['/']);
        assert(rel[0] == cs[0][0]);
    } else {
        assert(rel =~= Seq::<char>::empty());
    }
    assert(!is_absolute(rel));
    let joined_path = path_join(root, rel);
    if root.len() == 0 {
        assert(joined_path =~= rel);
        assert(root =~= Seq::<char>::empty());
        lemma_components_empty();
        assert(cs =~= components(dir));
    } else if root.last() == '/' {
        let r = root.drop_last();
        assert(root =~= r + seq!['/']);
        assert(joined_path =~= r + seq!['/'] + rel);
        lemma_components_concat(r, rel);
        lemma_components_trailing_separator(r);
        assert(joined_path[0] == root[0]);
    } else {
        assert(joined_path =~= root + seq!['/'] + rel);
        lemma_components_concat(root, rel);
        assert(joined_path[0] == root[0]);
    }
}

fn starts_with_separator(p: &str) -> (r: bool)
    ensures
        r == is_absolute(p@),
{
    p.unicode_len() > 0 && p.get_char(0) == '/'
}

/// `rel` taken from `base`, as `Path::join` does it.
pub fn join_path(base: &str, rel: &str) -> (r: String)
    ensures
        r@ == path_join(base@, rel@),
{
    if starts_with_separator(rel) {
        return String::from_str(rel);
    }
    let n = base.unicode_len();
    let mut r = String::from_str(base);
    if n > 0 && base.get_char(n - 1) != '/' {
        r.append("/");
        proof {
            reveal_strlit("/");
        }
    }
    r.append(rel);
    r
}

fn is_component_text(s: &str) -> (r: bool)
    ensures
        r == is_component(s@),
{
    let n = s.unicode_len();
    if n == 0 {
        return false;
    }
    if n == 1 && s.get_char(0) == '.' {
        assert(s@ =~= seq!['.']);
        return false;
    }
    proof {
        if s@ == seq!['.'] {
            assert(s@[0] == '.');
        }
    }
    true
}

/// The components of `p`, in order.
pub fn components_of(p: &str) -> (r: Vec<String>)
    ensures
        texts(r@) == components(p@),
{
    let n = p.unicode_len();
    let mut out: Vec<String> = Vec::new();
    let mut start: usize = 0;
    let mut i: usize = 0;
    let ghost mut done: Seq<Seq<char>> = Seq::empty();
    assert(p@.subrange(0, 0) =~= Seq::<char>::empty());
    assert(done.push(p@.subrange(0, 0)) =~= seq![Seq::<char>::empty()]);
    while i < n
        invariant
            n == p@.len(),
            start <= i <= n,
            pieces(p@.subrange(0, i as int)) == done.push(p@.subrange(start as int, i as int)),
            texts(out@) == keep_components(done),
        decreases n - i,
    {
        let c = p.get_char(i);
        let ghost before = p@.subrange(0, i as int);
        let ghost after = p@.subrange(0, i as int + 1);
        assert(after.drop_last() =~= before);
        assert(after.last() == c);
        if c == '/' {
            let piece = p.substring_char(start, i);
            let ghost next = done.push(piece@);
            assert(next.drop_last() =~= done);
            if is_component_text(piece) {
                out.push(String::from_str(piece));
                assert(texts(out@) =~= keep_components(done).push(piece@));
            }
            proof {
                done = next;
            }
            start = i + 1;
            assert(p@.subrange(start as int, i as int + 1) =~= Seq::<char>::empty());
            assert(pieces(after) =~= done.push(p@.subrange(start as int, i as int + 1)));
        } else {
            assert(p@.subrange(start as int, i as int).push(c) =~= p@.subrange(
                start as int,
                i as int + 1,
            ));
            assert(pieces(after) =~= done.push(p@.subrange(start as int, i as int + 1)));
        }
        i = i + 1;
    }
    assert(p@.subrange(0, n as int) =~= p@);
    let last = p.substring_char(start, n);
    let ghost all = done.push(last@);
    assert(all.drop_last() =~= done);
    if is_component_text(last) {
        out.push(String::from_str(last));
        assert(texts(out@) =~= keep_components(done).push(last@));
    }
    out
}

/// The path of `dir` relative to `root`, when `dir` lies within `root`.
///
/// Both are taken as they are: `dir` is expected to be canonical already, so
/// that a link or a `..` cannot lead out of the root.
pub fn register(dir: &str, root: &str) -> (r: Result<String, RegistryError>)
    ensures
        r is Ok <==> is_within(dir@, root@),
        r matches Ok(rel) ==> rel@ == relative_to(dir@, root@),
        r matches Err(e) ==> e == RegistryError::PathOutsideRoot,
{
    let cd = components_of(dir);
    let cr = components_of(root);
    if starts_with_separator(dir) != starts_with_separator(root) || cr.len() > cd.len() {
        return Err(RegistryError::PathOutsideRoot);
    }
    let mut k: usize = 0;
    while k < cr.len()
        invariant
            texts(cd@) == components(dir@),
            texts(cr@) == components(root@),
            cr.len() <= cd.len(),
            k <= cr.len(),
            forall|j: int| 0 <= j < k ==> cd@[j]@ == cr@[j]@,
        decreases cr.len() - k,
    {
        if !(cd[k] == cr[k]) {
            proof {
                let head = texts(cd@).subrange(0, cr.len() as int);
                assert(head[k as int] == cd@[k as int]@);
                assert(texts(cr@)[k as int] == cr@[k as int]@);
                assert(head != texts(cr@));
                assert(texts(cr@).len() == cr@.len());
                assert(!is_within(dir@, root@));
            }
            return Err(RegistryError::PathOutsideRoot);
        }
        k = k + 1;
    }
    assert(texts(cd@).subrange(0, cr.len() as int) =~= texts(cr@));
    let mut below: Vec<String> = Vec::new();
    let mut j: usize = cr.len();
    while j < cd.len()
        invariant
            texts(cd@) == components(dir@),
            texts(cr@) == components(root@),
            cr.len() <= j <= cd.len(),
            texts(below@) == texts(cd@).subrange(cr.len() as int, j as int),
        decreases cd.len() - j,
    {
        let ghost prev = below@;
        let piece = cd[j].clone();
        below.push(piece);
        proof {
            assert(below@ == prev.push(piece));
            assert(texts(below@) =~= texts(prev).push(cd@[j as int]@));
            assert(texts(below@) =~= texts(cd@).subrange(cr.len() as int, j as int + 1));
        }
        j = j + 1;
    }
    assert(texts(cd@).subrange(cr.len() as int, cd.len() as int) =~= texts(cd@).skip(
        cr.len() as int,
    ));
    proof {
        reveal_strlit("/");
        assert("/"@ =~= seq!['/']);
    }
    Ok(crate::text::join(&below, "/"))
}

} // verus!
