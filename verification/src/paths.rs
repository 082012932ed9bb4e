//! A purely textual model of filesystem paths, with `/` as the separator.
//!
//! Archive entry names are derived from path strings alone: a top-level input
//! is named relative to its container (the text before its last separator),
//! and every descendant is named relative to that same container. This keeps
//! naming deterministic and independent of where the process runs.

use vstd::prelude::*;

verus! {

/// A path that is exactly the one-character root `/`.
pub open spec fn is_root(p: Seq<char>) -> bool {
    p.len() == 1 && p[0] == '/'
}

/// Trailing separators carry no meaning: `docs/` and `docs` name the same
/// directory. Normalization drops them, keeping a lone root intact.
pub open spec fn normalize_spec(p: Seq<char>) -> Seq<char>
    decreases p.len(),
{
    if p.len() > 1 && p[p.len() - 1] == '/' {
        normalize_spec(p.drop_last())
    } else {
        p
    }
}

/// Index of the last separator in `p`, or -1 when there is none.
pub open spec fn last_slash(p: Seq<char>) -> int
    decreases p.len(),
{
    if p.len() == 0 {
        -1
    } else if p[p.len() - 1] == '/' {
        p.len() - 1
    } else {
        last_slash(p.drop_last())
    }
}

/// The naming anchor of a top-level input: the text before its last
/// separator, the root for root-anchored single components, the empty path
/// for bare names, and the root itself as the fallback anchor of the root.
pub open spec fn container_spec(p: Seq<char>) -> Seq<char> {
    if is_root(p) {
        seq!['/']
    } else if last_slash(p) == -1 {
        Seq::<char>::empty()
    } else if last_slash(p) == 0 {
        seq!['/']
    } else {
        p.subrange(0, last_slash(p))
    }
}

/// The relative name a top-level input contributes: everything after its last
/// separator. The root strips to an empty name, which is later suppressed.
pub open spec fn top_name_spec(p: Seq<char>) -> Seq<char> {
    if is_root(p) {
        Seq::<char>::empty()
    } else {
        p.subrange(last_slash(p) + 1, p.len() as int)
    }
}

/// `c` is a proper textual prefix of `p` with a separator right after it.
pub open spec fn dir_prefix(c: Seq<char>, p: Seq<char>) -> bool {
    &&& c.len() < p.len()
    &&& p.subrange(0, c.len() as int) == c
    &&& p[c.len() as int] == '/'
}

/// `c` is an anchor under which `p` lies: the empty path anchors everything,
/// the root anchors every longer absolute path, and otherwise `c` must be a
/// directory prefix of `p`.
pub open spec fn is_ancestor(c: Seq<char>, p: Seq<char>) -> bool {
    if c.len() == 0 {
        p.len() > 0
    } else if is_root(c) {
        p.len() > 1 && p[0] == '/'
    } else {
        dir_prefix(c, p)
    }
}

/// The name of `p` relative to the anchor `c`; meaningful when
/// `is_ancestor(c, p)` holds.
pub open spec fn rel_name_spec(c: Seq<char>, p: Seq<char>) -> Seq<char> {
    if c.len() == 0 {
        p
    } else if is_root(c) {
        p.subrange(1, p.len() as int)
    } else {
        p.subrange(c.len() as int + 1, p.len() as int)
    }
}

/// A single path component: non-empty and free of separators.
pub open spec fn valid_component(n: Seq<char>) -> bool {
    &&& n.len() > 0
    &&& forall|i: int| 0 <= i < n.len() ==> n[i] != '/'
}

/// The path of a direct child named `n` of directory `d`.
pub open spec fn join_child(d: Seq<char>, n: Seq<char>) -> Seq<char> {
    if is_root(d) {
        d + n
    } else {
        d + seq!['/'] + n
    }
}

/// `q` is the path of some direct child of directory `d`.
pub open spec fn child_shape(d: Seq<char>, q: Seq<char>) -> bool {
    exists|n: Seq<char>| #![trigger join_child(d, n)] valid_component(n) && q == join_child(d, n)
}

pub proof fn lemma_last_slash_bounds(p: Seq<char>)
    ensures
        -1 <= last_slash(p) < p.len(),
        last_slash(p) >= 0 ==> p[last_slash(p)] == '/',
    decreases p.len(),
{
    if p.len() == 0 {
    } else if p[p.len() - 1] == '/' {
    } else {
        lemma_last_slash_bounds(p.drop_last());
        if last_slash(p.drop_last()) >= 0 {
            assert(p.drop_last()[last_slash(p.drop_last())] == p[last_slash(p)]);
        }
    }
}

/// The last separator of a path that ends in a slash-free region is wherever
/// that region begins.
pub proof fn lemma_last_slash_at(p: Seq<char>, i: int)
    requires
        0 <= i < p.len(),
        p[i] == '/',
        forall|j: int| i < j < p.len() ==> p[j] != '/',
    ensures
        last_slash(p) == i,
    decreases p.len(),
{
    if p.len() - 1 == i {
    } else {
        assert(p[p.len() - 1] != '/');
        assert(p.drop_last()[i] == p[i]);
        lemma_last_slash_at(p.drop_last(), i);
    }
}

/// Law: archive naming is rooted at the basename. A top-level input written
/// as a parent, a separator, and a slash-free non-empty base is named exactly
/// by that base, wherever the parent lies.
pub proof fn lemma_top_name_is_basename(parent: Seq<char>, base: Seq<char>)
    requires
        valid_component(base),
    ensures
        top_name_spec(parent + seq!['/'] + base) == base,
{
    let p = parent + seq!['/'] + base;
    assert(p.len() >= 2);
    assert(p[parent.len() as int] == '/');
    assert forall|j: int| parent.len() < j < p.len() implies p[j] != '/' by {
        assert(p[j] == base[j - parent.len() - 1]);
    }
    lemma_last_slash_at(p, parent.len() as int);
    assert(p.subrange(parent.len() as int + 1, p.len() as int) =~= base);
}

/// Law: every name one input contributes is rooted at that input's own
/// relative name. A descendant's name relative to the input's container is
/// the input's name, a separator, and the descendant's name relative to the
/// input itself. An input whose anchor degenerates to the root while its
/// second separator is stripped — a path beginning `//` with no later
/// separator — is left out: there the anchor drops one character fewer.
pub proof fn lemma_names_rooted_at_top_name(p: Seq<char>, source: Seq<char>)
    requires
        p.len() > 0,
        !is_root(p),
        !(last_slash(p) == 1 && p[0] == '/'),
        is_ancestor(p, source),
    ensures
        rel_name_spec(container_spec(p), source) == top_name_spec(p) + seq!['/'] + rel_name_spec(
            p,
            source,
        ),
{
    lemma_last_slash_bounds(p);
    let l = last_slash(p);
    assert(dir_prefix(p, source));
    assert forall|i: int| 0 <= i < p.len() implies source[i] == p[i] by {
        assert(source.subrange(0, p.len() as int)[i] == p[i]);
    }
    assert(top_name_spec(p) =~= p.subrange(l + 1, p.len() as int));
    if l == -1 {
        assert(rel_name_spec(container_spec(p), source) =~= top_name_spec(p) + seq!['/']
            + rel_name_spec(p, source));
    } else if l == 0 {
        assert(rel_name_spec(container_spec(p), source) =~= top_name_spec(p) + seq!['/']
            + rel_name_spec(p, source));
    } else {
        let c = p.subrange(0, l);
        assert(!is_root(c));
        assert(rel_name_spec(c, source) =~= source.subrange(l + 1, source.len() as int));
        assert(rel_name_spec(container_spec(p), source) =~= top_name_spec(p) + seq!['/']
            + rel_name_spec(p, source));
    }
}

/// Normalization is idempotent.
pub proof fn lemma_normalize_idempotent(p: Seq<char>)
    ensures
        normalize_spec(normalize_spec(p)) == normalize_spec(p),
    decreases p.len(),
{
    if p.len() > 1 && p[p.len() - 1] == '/' {
        lemma_normalize_idempotent(p.drop_last());
    }
}

/// A child path is already normalized, and longer than its directory.
pub proof fn lemma_child_normalized(d: Seq<char>, q: Seq<char>)
    requires
        child_shape(d, q),
    ensures
        normalize_spec(q) == q,
        q.len() > d.len(),
{
    let n = choose|n: Seq<char>|
        #![trigger join_child(d, n)]
        valid_component(n) && q == join_child(d, n);
    assert(q[q.len() - 1] == n[n.len() - 1]);
    assert(q[q.len() - 1] != '/');
}

/// An anchor is strictly shorter than what it anchors.
pub proof fn lemma_ancestor_shorter(c: Seq<char>, p: Seq<char>)
    requires
        is_ancestor(c, p),
    ensures
        c.len() < p.len(),
{
}

/// Anchoring is transitive.
pub proof fn lemma_ancestor_transitive(a: Seq<char>, b: Seq<char>, q: Seq<char>)
    requires
        is_ancestor(a, b),
        is_ancestor(b, q),
    ensures
        is_ancestor(a, q),
{
    if a.len() == 0 {
        lemma_ancestor_shorter(b, q);
    } else if is_root(a) {
        if is_root(b) {
        } else {
            assert(b[0] == '/');
            assert(q.subrange(0, b.len() as int)[0] == q[0]);
        }
    } else {
        assert(!is_root(b)) by {
            lemma_ancestor_shorter(a, b);
        }
        assert(q.subrange(0, b.len() as int) == b);
        assert forall|i: int| 0 <= i < a.len() implies q.subrange(0, a.len() as int)[i] == a[i] by {
            assert(q.subrange(0, b.len() as int)[i] == b[i]);
            assert(b.subrange(0, a.len() as int)[i] == a[i]);
        }
        assert(q.subrange(0, a.len() as int) =~= a);
        assert(q[a.len() as int] == b[a.len() as int]) by {
            assert(q.subrange(0, b.len() as int)[a.len() as int] == b[a.len() as int]);
        }
    }
}

/// Every anchor of a direct child of `d` is the empty path, `d` itself, or an
/// anchor of `d`; and `d` anchors its children.
pub proof fn lemma_child_ancestors(d: Seq<char>, q: Seq<char>)
    requires
        d.len() > 0,
        child_shape(d, q),
    ensures
        is_ancestor(d, q),
        forall|a: Seq<char>| #[trigger] is_ancestor(a, q) ==> a.len() == 0 || a == d || is_ancestor(a, d),
{
    let n = choose|n: Seq<char>| #![trigger join_child(d, n)] valid_component(n) && q == join_child(d, n);
    if is_root(d) {
        assert(q == d + n);
        assert(q[0] == '/');
        assert(is_ancestor(d, q));
    } else {
        assert(q == d + seq!['/'] + n);
        assert(q.subrange(0, d.len() as int) =~= d);
        assert(q[d.len() as int] == '/');
        assert(is_ancestor(d, q));
    }
    assert forall|a: Seq<char>| #[trigger] is_ancestor(a, q) && a.len() > 0 && a != d implies is_ancestor(a, d) by {
        lemma_child_ancestor_case(d, q, n, a);
    }
}

proof fn lemma_child_ancestor_case(d: Seq<char>, q: Seq<char>, n: Seq<char>, a: Seq<char>)
    requires
        d.len() > 0,
        valid_component(n),
        q == join_child(d, n),
        is_ancestor(a, q),
        a.len() > 0,
        a != d,
    ensures
        is_ancestor(a, d),
{
    if is_root(d) {
        // q == "/" + n: separators occur only at index 0.
        assert(q == d + n);
        if is_root(a) {
            assert(a =~= d);
            assert(false);
        } else {
            // a proper directory prefix would need a separator past index 0
            assert(dir_prefix(a, q));
            assert(q[a.len() as int] == '/');
            if a.len() > 1 {
                assert(q[a.len() as int] == n[a.len() - 1]);
                assert(false);
            } else {
                assert(a.len() == 1);
                assert(a.subrange(0, 1int) =~= a);
                assert(q.subrange(0, a.len() as int)[0] == q[0]);
                assert(a[0] == '/');
                assert(is_root(a));
                assert(false);
            }
        }
    } else {
        assert(q == d + seq!['/'] + n);
        if is_root(a) {
            // then q starts with '/', so d does too, and d is longer than a
            assert(q[0] == d[0]);
            if d.len() == 1 {
                assert(d[0] == '/');
                assert(is_root(d));
                assert(false);
            } else {
                assert(is_ancestor(a, d));
            }
        } else {
            assert(dir_prefix(a, q));
            assert(q[a.len() as int] == '/');
            if a.len() > d.len() {
                assert(q[a.len() as int] == n[a.len() - d.len() - 1]);
                assert(false);
            } else if a.len() == d.len() {
                assert forall|i: int| 0 <= i < d.len() implies a[i] == d[i] by {
                    assert(q.subrange(0, a.len() as int)[i] == a[i]);
                    assert(q[i] == d[i]);
                }
                assert(a =~= d);
                assert(false);
            } else {
                assert forall|i: int| 0 <= i < a.len() implies d.subrange(0, a.len() as int)[i] == a[i] by {
                    assert(q.subrange(0, a.len() as int)[i] == a[i]);
                    assert(q[i] == d[i]);
                }
                assert(d.subrange(0, a.len() as int) =~= a);
                assert(d[a.len() as int] == q[a.len() as int]);
                assert(dir_prefix(a, d));
            }
        }
    }
}

/// Drops trailing separators from a path, keeping a lone root.
pub fn normalize(p: &String) -> (r: String)
    ensures
        r@ == normalize_spec(p@),
{
    let s = p.as_str();
    let mut end: usize = s.unicode_len();
    proof {
        assert(s@.subrange(0, end as int) =~= s@);
    }
    while end > 1 && s.get_char(end - 1) == '/'
        invariant
            end <= s@.len(),
            normalize_spec(p@) == normalize_spec(s@.subrange(0, end as int)),
        decreases end,
    {
        proof {
            let cur = s@.subrange(0, end as int);
            assert(cur[end - 1] == s@[end - 1]);
            assert(cur.drop_last() =~= s@.subrange(0, end as int - 1));
        }
        end = end - 1;
    }
    proof {
        let cur = s@.subrange(0, end as int);
        if end > 0 {
            assert(cur[end - 1] == s@[end - 1]);
        }
        assert(normalize_spec(cur) == cur);
    }
    let r = s.substring_char(0, end).to_owned();
    r
}

/// Finds the last separator, if any.
fn last_slash_index(s: &str) -> (r: Option<usize>)
    ensures
        r matches Some(i) ==> last_slash(s@) == i,
        r is None ==> last_slash(s@) == -1,
{
    let mut i: usize = s.unicode_len();
    proof {
        assert(s@.subrange(0, i as int) =~= s@);
    }
    while i > 0
        invariant
            i <= s@.len(),
            last_slash(s@) == last_slash(s@.subrange(0, i as int)),
        decreases i,
    {
        proof {
            let cur = s@.subrange(0, i as int);
            assert(cur[i - 1] == s@[i - 1]);
            assert(cur.drop_last() =~= s@.subrange(0, i as int - 1));
        }
        if s.get_char(i - 1) == '/' {
            return Some(i - 1);
        }
        i = i - 1;
    }
    proof {
        assert(s@.subrange(0, 0int) =~= Seq::<char>::empty());
    }
    None
}

/// Splits a top-level input into its container and its relative name.
pub fn split_container(p: &String) -> (r: (String, String))
    ensures
        r.0@ == container_spec(p@),
        r.1@ == top_name_spec(p@),
{
    let s = p.as_str();
    let len = s.unicode_len();
    if len == 1 && s.get_char(0) == '/' {
        let root = String::from_str("/");
        proof {
            reveal_strlit("/");
            assert(root@ =~= seq!['/']);
        }
        return (root, String::new());
    }
    proof {
        lemma_last_slash_bounds(s@);
    }
    match last_slash_index(s) {
        None => {
            proof {
                assert(s@.subrange(0, s@.len() as int) =~= s@);
            }
            (String::new(), p.clone())
        }
        Some(i) => {
            if i == 0 {
                let root = String::from_str("/");
                proof {
                    reveal_strlit("/");
                    assert(root@ =~= seq!['/']);
                }
                (root, s.substring_char(1, len).to_owned())
            } else {
                (s.substring_char(0, i).to_owned(), s.substring_char(i + 1, len).to_owned())
            }
        }
    }
}

/// Decides whether `c` anchors `p`.
pub fn is_ancestor_of(c: &str, p: &str) -> (r: bool)
    ensures
        r == is_ancestor(c@, p@),
{
    let cl = c.unicode_len();
    let pl = p.unicode_len();
    if cl == 0 {
        return pl > 0;
    }
    if cl == 1 && c.get_char(0) == '/' {
        return pl > 1 && p.get_char(0) == '/';
    }
    if cl >= pl {
        return false;
    }
    if p.get_char(cl) != '/' {
        return false;
    }
    let mut i: usize = 0;
    while i < cl
        invariant
            i <= cl,
            cl == c@.len(),
            cl < pl == p@.len(),
            forall|j: int| 0 <= j < i ==> p@[j] == c@[j],
        decreases cl - i,
    {
        if p.get_char(i) != c.get_char(i) {
            proof {
                assert(p@.subrange(0, cl as int)[i as int] != c@[i as int]);
            }
            return false;
        }
        i = i + 1;
    }
    proof {
        assert(p@.subrange(0, cl as int) =~= c@);
    }
    true
}

/// The name of `p` relative to the anchor `c`: `Some` exactly when `c`
/// anchors `p`.
pub fn rel_name(c: &str, p: &str) -> (r: Option<String>)
    ensures
        r is Some <==> is_ancestor(c@, p@),
        r matches Some(n) ==> n@ == rel_name_spec(c@, p@),
{
    if !is_ancestor_of(c, p) {
        return None;
    }
    let cl = c.unicode_len();
    let pl = p.unicode_len();
    if cl == 0 {
        Some(p.to_owned())
    } else if cl == 1 && c.get_char(0) == '/' {
        Some(p.substring_char(1, pl).to_owned())
    } else {
        Some(p.substring_char(cl + 1, pl).to_owned())
    }
}

} // verus!

