//! Paths as Unix writes them.

use crate::text;
use crate::text::{chars_of, string_of};
use vstd::prelude::*;
use vstd::string::*;

verus! {

/// Whether a path starts at the root.
pub open spec fn absolute(p: Seq<char>) -> bool {
    p.len() > 0 && p[0] == '/'
}

/// The path `p` as seen from `base`: an absolute `p` is itself, another stands
/// behind `base` and a separator.
pub open spec fn join(base: Seq<char>, p: Seq<char>) -> Seq<char> {
    if absolute(p) {
        p
    } else if base.len() == 0 || base.last() == '/' {
        base + p
    } else {
        base + "/"@ + p
    }
}

/// Whether a path starts at the root.
pub fn is_absolute(p: &str) -> (r: bool)
    ensures
        r == absolute(p@),
{
    p.unicode_len() > 0 && p.get_char(0) == '/'
}

/// The path `p` as seen from `base`.
pub fn joined(base: &str, p: &str) -> (r: String)
    ensures
        r@ == join(base@, p@),
{
    if is_absolute(p) {
        return p.to_owned();
    }
    let n: usize = base.unicode_len();
    let mut r = base.to_owned();
    if n > 0 && base.get_char(n - 1) != '/' {
        r.push_str("/");
    }
    r.push_str(p);
    r
}

/// `p` without separators, and `.` components behind a separator, at its end.
pub open spec fn trim_tail(p: Seq<char>) -> Seq<char>
    decreases p.len(),
{
    if p.len() > 0 && p.last() == '/' {
        trim_tail(p.drop_last())
    } else if p.len() > 1 && p.last() == '.' && p[p.len() - 2] == '/' {
        trim_tail(p.drop_last())
    } else {
        p
    }
}

/// `p` without its last component.
pub open spec fn drop_name(p: Seq<char>) -> Seq<char>
    decreases p.len(),
{
    if p.len() > 0 && p.last() != '/' {
        drop_name(p.drop_last())
    } else {
        p
    }
}

/// The directory that holds `p`: what stands before its last component. The
/// root and the empty path have none.
pub open spec fn parent(p: Seq<char>) -> Option<Seq<char>> {
    let named = trim_tail(p);
    if named.len() == 0 {
        None
    } else {
        let dir = trim_tail(drop_name(named));
        if dir.len() == 0 && absolute(p) {
            Some("/"@)
        } else {
            Some(dir)
        }
    }
}

fn trim_tail_at(v: &Vec<char>, to: usize) -> (r: usize)
    requires
        to <= v@.len(),
    ensures
        r <= to,
        v@.take(r as int) == trim_tail(v@.take(to as int)),
{
    let mut i: usize = to;
    while i > 0 && (v[i - 1] == '/' || (i > 1 && v[i - 1] == '.' && v[i - 2] == '/'))
        invariant
            i <= to <= v@.len(),
            trim_tail(v@.take(i as int)) == trim_tail(v@.take(to as int)),
        decreases i,
    {
        assert(v@.take(i as int).drop_last() =~= v@.take(i - 1));
        i -= 1;
    }
    i
}

fn drop_name_at(v: &Vec<char>, to: usize) -> (r: usize)
    requires
        to <= v@.len(),
    ensures
        r <= to,
        v@.take(r as int) == drop_name(v@.take(to as int)),
{
    let mut i: usize = to;
    while i > 0 && v[i - 1] != '/'
        invariant
            i <= to <= v@.len(),
            drop_name(v@.take(i as int)) == drop_name(v@.take(to as int)),
        decreases i,
    {
        assert(v@.take(i as int).drop_last() =~= v@.take(i - 1));
        i -= 1;
    }
    i
}

/// The directory that holds `p`.
pub fn parent_of(p: &str) -> (r: Option<String>)
    ensures
        r.deep_view() == parent(p@),
{
    let v = chars_of(p);
    assert(v@.take(v@.len() as int) =~= v@);
    let named: usize = trim_tail_at(&v, v.len());
    if named == 0 {
        return None;
    }
    let dir: usize = trim_tail_at(&v, drop_name_at(&v, named));
    if dir == 0 && v[0] == '/' {
        Some("/".to_owned())
    } else {
        assert(v@.subrange(0, dir as int) =~= v@.take(dir as int));
        Some(string_of(&v, 0, dir))
    }
}

// ---------------------------------------------------------------------------
// Laws
// ---------------------------------------------------------------------------

/// A path that starts at the root is itself wherever it is seen from. Another ends
/// what it is joined to, behind one separator.
pub proof fn law_paths_join(base: Seq<char>, p: Seq<char>)
    ensures
        p.len() > 0 && p[0] == '/' ==> join(base, p) == p,
        !(p.len() > 0 && p[0] == '/') ==> join(base, p).skip(join(base, p).len() - p.len()) == p
            && text::begins_with(join(base, p), base),
        !(p.len() > 0 && p[0] == '/') && base.len() > 0 ==> join(base, p)[join(base, p).len()
            - p.len() - 1] == '/' && join(base, p).len() == base.len() + p.len() + (if base.last()
            == '/' {
            0int
        } else {
            1int
        }),
        !(p.len() > 0 && p[0] == '/') && base.len() == 0 ==> join(base, p) == p,
{
    reveal_strlit("/");
    if !absolute(p) {
        let whole = join(base, p);
        assert(whole.skip(whole.len() - p.len()) =~= p);
        assert(whole.subrange(0, base.len() as int) =~= base);
        if base.len() == 0 {
            assert(whole =~= p);
        }
    }
}

/// The directory of a file that stands in a directory is that directory.
pub proof fn law_the_parent_holds_the_file(dir: Seq<char>, name: Seq<char>)
    requires
        dir.len() > 0,
        dir.last() != '/',
        dir.last() != '.',
        name.len() > 0,
        name != seq!['.'],
        forall|i: int| 0 <= i < name.len() ==> name[i] != '/',
    ensures
        parent(join(dir, name)) == Some(dir),
        parent(name) == Some(Seq::<char>::empty()),
        parent(seq!['/'] + name) == Some(seq!['/']),
        parent(Seq::<char>::empty()) is None,
{
    reveal_strlit("/");
    let root = seq!['/'];
    lemma_named(dir + root, name);
    lemma_named(Seq::empty(), name);
    lemma_named(root, name);
    assert(dir + "/"@ + name =~= (dir + root) + name);
    assert(Seq::empty() + name =~= name);
    assert((dir + root).drop_last() =~= dir);
    assert(trim_tail(dir + root) == trim_tail(dir));
    assert(root.drop_last() =~= Seq::empty());
    assert(trim_tail(root) == trim_tail(Seq::empty()));
    assert("/"@ =~= root);
}

proof fn lemma_named(before: Seq<char>, name: Seq<char>)
    requires
        before.len() == 0 || before.last() == '/',
        name.len() > 0,
        name != seq!['.'],
        forall|i: int| 0 <= i < name.len() ==> name[i] != '/',
    ensures
        trim_tail(before + name) == before + name,
        drop_name(before + name) == before,
{
    let whole = before + name;
    assert(whole.last() == name.last());
    if name.len() == 1 && name[0] == '.' {
        assert(name =~= seq!['.']);
    }
    if name.len() > 1 {
        assert(whole[whole.len() - 2] == name[name.len() - 2]);
    }
    lemma_drop_name(before, name);
}

proof fn lemma_drop_name(before: Seq<char>, name: Seq<char>)
    requires
        before.len() == 0 || before.last() == '/',
        forall|i: int| 0 <= i < name.len() ==> name[i] != '/',
    ensures
        drop_name(before + name) == before,
    decreases name.len(),
{
    if name.len() == 0 {
        assert(before + name =~= before);
    } else {
        assert((before + name).drop_last() =~= before + name.drop_last());
        lemma_drop_name(before, name.drop_last());
    }
}

} // verus!
