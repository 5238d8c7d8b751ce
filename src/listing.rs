//! The listing of the registry: one row per project, ordered by name without
//! regard to case, with the columns asked for.

use crate::parse::{Project, ProjectView};
use crate::text::{joined, lemma_text_lt_total, lemma_text_lt_transitive, text_less, text_lt, texts};
use vstd::prelude::*;
use vstd::string::*;

verus! {

/// The columns a listing shows besides the project's name.
#[derive(Debug, Clone, Copy, PartialEq, Eq, Structural)]
pub struct Columns {
    pub path: bool,
    pub description: bool,
    pub languages: bool,
    pub source: bool,
}

/// A listing: the column titles (none when only names are listed) and the
/// rows.
#[derive(Debug)]
pub struct ProjectTable {
    pub header: Vec<String>,
    pub rows: Vec<Vec<String>>,
}

/// Some column besides the name is asked for.
pub open spec fn any_column(c: Columns) -> bool {
    c.path || c.description || c.languages || c.source
}

/// `x` when `b` holds, nothing otherwise.
pub open spec fn cell_if(b: bool, x: Seq<char>) -> Seq<Seq<char>> {
    if b {
        seq![x]
    } else {
        Seq::empty()
    }
}

/// The column titles of a listing: none when only names are listed, else
/// `Name` and the title of each column asked for.
pub open spec fn header_of(c: Columns) -> Seq<Seq<char>> {
    if any_column(c) {
        seq!["Name"@] + cell_if(c.path, "Path"@) + cell_if(c.description, "Description"@) + cell_if(
            c.languages,
            "Languages"@,
        ) + cell_if(c.source, "Source"@)
    } else {
        Seq::empty()
    }
}

/// The row of project `p`: its name, then each column asked for; a missing
/// description or source shows as empty text.
pub open spec fn row_of(p: ProjectView, c: Columns) -> Seq<Seq<char>> {
    seq![p.name] + cell_if(c.path, p.path) + cell_if(
        c.description,
        match p.description {
            Some(d) => d,
            None => Seq::empty(),
        },
    ) + cell_if(c.languages, joined(p.languages, ", "@)) + cell_if(
        c.source,
        match p.source {
            Some(s) => s.url,
            None => Seq::empty(),
        },
    )
}

/// Index `i` goes before index `j`: by key, and by index where keys are equal.
pub open spec fn ordered_before(keys: Seq<Seq<char>>, i: int, j: int) -> bool {
    text_lt(keys[i], keys[j]) || (keys[i] == keys[j] && i < j)
}

/// `order` lists every index of `keys` once, by key and, for equal keys, in
/// the order they are given in.
pub open spec fn is_sorted_order(keys: Seq<Seq<char>>, order: Seq<usize>) -> bool {
    &&& order.len() == keys.len()
    &&& forall|k: int| 0 <= k < order.len() ==> order[k] < keys.len()
    &&& forall|a: int, b: int|
        0 <= a < b < order.len() ==> ordered_before(keys, order[a] as int, order[b] as int)
}

proof fn lemma_ordered_before_transitive(keys: Seq<Seq<char>>, x: int, y: int, z: int)
    requires
        ordered_before(keys, x, y),
        ordered_before(keys, y, z),
    ensures
        ordered_before(keys, x, z),
{
    if text_lt(keys[x], keys[y]) && text_lt(keys[y], keys[z]) {
        lemma_text_lt_transitive(keys[x], keys[y], keys[z]);
    }
}

/// The indices of `keys`, ordered by key and, for equal keys, by index.
pub fn sorted_order(keys: &Vec<String>) -> (order: Vec<usize>)
    ensures
        is_sorted_order(texts(keys@), order@),
{
    let ghost ks = texts(keys@);
    let mut order: Vec<usize> = Vec::new();
    let mut i: usize = 0;
    while i < keys.len()
        invariant
            ks == texts(keys@),
            i <= keys@.len(),
            order@.len() == i,
            forall|k: int| 0 <= k < order@.len() ==> order@[k] < i,
            forall|a: int, b: int|
                0 <= a < b < order@.len() ==> ordered_before(ks, order@[a] as int, order@[b] as int),
        decreases keys@.len() - i,
    {
        let mut p: usize = order.len();
        let mut scanning = true;
        while scanning && p > 0
            invariant
                ks == texts(keys@),
                i < keys@.len(),
                p <= order@.len(),
                forall|k: int| 0 <= k < order@.len() ==> order@[k] < i,
                forall|k: int| p <= k < order@.len() ==> text_lt(ks[i as int], ks[order@[k] as int]),
                !scanning ==> p > 0 && !text_lt(ks[i as int], ks[order@[p - 1] as int]),
            decreases p + (if scanning { 1int } else { 0int }),
        {
            if text_less(keys[i].as_str(), keys[order[p - 1]].as_str()) {
                p = p - 1;
            } else {
                scanning = false;
            }
        }
        let ghost prev = order@;
        order.insert(p, i);
        proof {
            assert forall|a: int, b: int| 0 <= a < b < order@.len() implies ordered_before(
                ks,
                order@[a] as int,
                order@[b] as int,
            ) by {
                let pi = p as int;
                if b == pi {
                    let last = prev[pi - 1] as int;
                    if ks[last] != ks[i as int] {
                        lemma_text_lt_total(ks[last], ks[i as int]);
                    }
                    assert(ordered_before(ks, last, i as int));
                    if a < pi - 1 {
                        lemma_ordered_before_transitive(ks, prev[a] as int, last, i as int);
                    }
                } else if a == pi {
                    assert(order@[b] == prev[b - 1]);
                } else if a < pi && b > pi {
                    assert(order@[b] == prev[b - 1]);
                    assert(ordered_before(ks, prev[a] as int, prev[b - 1] as int));
                } else if a > pi {
                    assert(order@[a] == prev[a - 1] && order@[b] == prev[b - 1]);
                }
            }
        }
        i = i + 1;
    }
    order
}

/// The listing of `projects` with the columns of `c`, ordered by `keys`, the
/// key of each project, and by position among equal keys.
pub fn project_table(projects: &Vec<Project>, keys: &Vec<String>, c: Columns) -> (r: ProjectTable)
    requires
        keys@.len() == projects@.len(),
    ensures
        texts(r.header@) == header_of(c),
        exists|order: Seq<usize>|
            {
                &&& is_sorted_order(texts(keys@), order)
                &&& r.rows@.len() == order.len()
                &&& forall|k: int|
                    0 <= k < order.len() ==> texts(#[trigger] r.rows@[k]@) == row_of(
                        projects@[order[k] as int]@,
                        c,
                    )
            },
{
    let header = header(c);
    let order = sorted_order(keys);
    let mut rows: Vec<Vec<String>> = Vec::new();
    let mut k: usize = 0;
    while k < order.len()
        invariant
            is_sorted_order(texts(keys@), order@),
            keys@.len() == projects@.len(),
            k <= order@.len(),
            rows@.len() == k,
            forall|j: int|
                0 <= j < k ==> texts(#[trigger] rows@[j]@) == row_of(
                    projects@[order@[j] as int]@,
                    c,
                ),
        decreases order@.len() - k,
    {
        rows.push(row(&projects[order[k]], c));
        k = k + 1;
    }
    ProjectTable { header, rows }
}

fn header(c: Columns) -> (r: Vec<String>)
    ensures
        texts(r@) == header_of(c),
{
    let mut r: Vec<String> = Vec::new();
    if !(c.path || c.description || c.languages || c.source) {
        assert(texts(r@) =~= header_of(c));
        return r;
    }
    r.push(String::from_str("Name"));
    let ghost h0 = seq!["Name"@];
    assert(texts(r@) =~= h0);
    if c.path {
        r.push(String::from_str("Path"));
    }
    let ghost h1 = h0 + cell_if(c.path, "Path"@);
    assert(texts(r@) =~= h1);
    if c.description {
        r.push(String::from_str("Description"));
    }
    let ghost h2 = h1 + cell_if(c.description, "Description"@);
    assert(texts(r@) =~= h2);
    if c.languages {
        r.push(String::from_str("Languages"));
    }
    let ghost h3 = h2 + cell_if(c.languages, "Languages"@);
    assert(texts(r@) =~= h3);
    if c.source {
        r.push(String::from_str("Source"));
    }
    assert(texts(r@) =~= h3 + cell_if(c.source, "Source"@));
    r
}

fn row(p: &Project, c: Columns) -> (r: Vec<String>)
    ensures
        texts(r@) == row_of(p@, c),
{
    let mut r: Vec<String> = Vec::new();
    r.push(p.name.clone());
    let ghost h0 = seq![p@.name];
    assert(texts(r@) =~= h0);
    if c.path {
        r.push(p.path.clone());
    }
    let ghost h1 = h0 + cell_if(c.path, p@.path);
    assert(texts(r@) =~= h1);
    if c.description {
        let d = match &p.description {
            Some(d) => d.clone(),
            None => String::new(),
        };
        r.push(d);
    }
    let ghost h2 = h1 + cell_if(
        c.description,
        match p@.description {
            Some(d) => d,
            None => Seq::empty(),
        },
    );
    assert(texts(r@) =~= h2);
    if c.languages {
        r.push(crate::text::join(&p.languages, ", "));
    }
    let ghost h3 = h2 + cell_if(c.languages, joined(p@.languages, ", "@));
    assert(texts(r@) =~= h3);
    if c.source {
        let s = match &p.source {
            Some(s) => s.url.clone(),
            None => String::new(),
        };
        r.push(s);
    }
    assert(texts(r@) =~= row_of(p@, c));
    r
}

} // verus!
