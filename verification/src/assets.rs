//! Rules of the asset browser: which entries it lists and how it marks
//! them.

use vstd::prelude::*;
use crate::text::{chars_of, ends_with, ends_with_chars};

verus! {

/// How the asset browser marks a file.
#[derive(Clone, Copy, Debug, PartialEq, Eq, Structural)]
pub enum AssetKind {
    /// A scene file (`.scn.ron`), which can be loaded.
    Scene,
    /// A picture (`.png` or `.jpg`).
    Image,
    Other,
}

/// How many directory levels below the assets folder are listed.
pub const MAX_SCAN_DEPTH: u32 = 5;

/// The kind of a file with the given name.
pub open spec fn kind_of(name: Seq<char>) -> AssetKind {
    if ends_with(name, ".scn.ron"@) {
        AssetKind::Scene
    } else if ends_with(name, ".png"@) || ends_with(name, ".jpg"@) {
        AssetKind::Image
    } else {
        AssetKind::Other
    }
}

/// The kind of a file with the given name.
pub fn asset_kind(name: &str) -> (r: AssetKind)
    ensures
        r == kind_of(name@),
{
    let n = chars_of(name);
    let scene = chars_of(".scn.ron");
    if ends_with_chars(&n, &scene) {
        return AssetKind::Scene;
    }
    let png = chars_of(".png");
    let jpg = chars_of(".jpg");
    if ends_with_chars(&n, &png) || ends_with_chars(&n, &jpg) {
        AssetKind::Image
    } else {
        AssetKind::Other
    }
}

/// Whether a path names a scene file that can be loaded.
pub fn is_scene_file(path: &str) -> (r: bool)
    ensures
        r == ends_with(path@, ".scn.ron"@),
{
    let p = chars_of(path);
    let scene = chars_of(".scn.ron");
    ends_with_chars(&p, &scene)
}

/// Whether the scan descends into a directory called `name` found at
/// `depth`: not below `MAX_SCAN_DEPTH` levels, and never into `.git`.
pub fn descend_into(depth: u32, name: &str) -> (r: bool)
    ensures
        r == (depth < MAX_SCAN_DEPTH && name@ != ".git"@),
{
    if depth >= MAX_SCAN_DEPTH {
        return false;
    }
    let n = chars_of(name);
    let git = chars_of(".git");
    let same = n.len() == git.len() && ends_with_chars(&n, &git);
    proof {
        if n@.len() == git@.len() {
            assert(n@.subrange(0, n@.len() as int) =~= n@);
        }
    }
    !same
}

/// A directory with fewer than this many entries starts expanded.
pub const EXPAND_BELOW: usize = 8;

/// Whether a directory's entry starts expanded.
pub fn starts_open(child_count: usize) -> (r: bool)
    ensures
        r == (child_count < EXPAND_BELOW),
{
    child_count < EXPAND_BELOW
}

/// `a` comes strictly before `b` in character order (what std's `str`
/// ordering gives: byte order of UTF-8 agrees with code-point order).
pub open spec fn lex_lt(a: Seq<char>, b: Seq<char>) -> bool
    decreases a.len(),
{
    if a.len() == 0 {
        b.len() > 0
    } else if b.len() == 0 {
        false
    } else if a[0] != b[0] {
        a[0] < b[0]
    } else {
        lex_lt(a.drop_first(), b.drop_first())
    }
}

proof fn lemma_lex_irreflexive(a: Seq<char>)
    ensures
        !lex_lt(a, a),
    decreases a.len(),
{
    if a.len() > 0 {
        lemma_lex_irreflexive(a.drop_first());
    }
}

proof fn lemma_lex_total(a: Seq<char>, b: Seq<char>)
    ensures
        a == b || lex_lt(a, b) || lex_lt(b, a),
    decreases a.len(),
{
    if a.len() > 0 && b.len() > 0 && a[0] == b[0] {
        lemma_lex_total(a.drop_first(), b.drop_first());
        if a.drop_first() == b.drop_first() {
            assert(a =~= seq![a[0]] + a.drop_first());
            assert(b =~= seq![b[0]] + b.drop_first());
        }
    }
}

proof fn lemma_lex_asymmetric(a: Seq<char>, b: Seq<char>)
    requires
        lex_lt(a, b),
    ensures
        !lex_lt(b, a),
    decreases a.len(),
{
    if a.len() > 0 && b.len() > 0 && a[0] == b[0] {
        lemma_lex_asymmetric(a.drop_first(), b.drop_first());
    }
}

proof fn lemma_lex_transitive(a: Seq<char>, b: Seq<char>, c: Seq<char>)
    requires
        lex_lt(a, b),
        lex_lt(b, c),
    ensures
        lex_lt(a, c),
    decreases a.len(),
{
    if a.len() > 0 && b.len() > 0 && c.len() > 0 && a[0] == b[0] && b[0] == c[0] {
        lemma_lex_transitive(a.drop_first(), b.drop_first(), c.drop_first());
    }
}

/// Whether `a` comes strictly before `b` in character order.
pub fn name_less(a: &Vec<char>, b: &Vec<char>) -> (r: bool)
    ensures
        r == lex_lt(a@, b@),
{
    let mut i: usize = 0;
    assert(a@.skip(0) =~= a@);
    assert(b@.skip(0) =~= b@);
    while i < a.len() && i < b.len() && a[i] == b[i]
        invariant
            i <= a.len(),
            i <= b.len(),
            lex_lt(a@, b@) == lex_lt(a@.skip(i as int), b@.skip(i as int)),
        decreases a.len() - i,
    {
        assert(a@.skip(i as int).drop_first() =~= a@.skip(i + 1));
        assert(b@.skip(i as int).drop_first() =~= b@.skip(i + 1));
        i = i + 1;
    }
    if i == a.len() {
        i < b.len()
    } else if i == b.len() {
        false
    } else {
        a[i] < b[i]
    }
}

/// Entry `x` is listed before entry `y`: directories before files, then by
/// name, and entries with equal names keep their scan order.
pub open spec fn listed_before(names: Seq<Seq<char>>, is_dir: Seq<bool>, x: int, y: int) -> bool {
    if is_dir[x] != is_dir[y] {
        is_dir[x]
    } else if names[x] != names[y] {
        lex_lt(names[x], names[y])
    } else {
        x < y
    }
}

proof fn lemma_listed_total(names: Seq<Seq<char>>, is_dir: Seq<bool>, x: int, y: int)
    requires
        x != y,
    ensures
        listed_before(names, is_dir, x, y) != listed_before(names, is_dir, y, x),
{
    if is_dir[x] == is_dir[y] && names[x] != names[y] {
        lemma_lex_total(names[x], names[y]);
        if lex_lt(names[x], names[y]) {
            lemma_lex_asymmetric(names[x], names[y]);
        }
    }
}

proof fn lemma_listed_transitive(names: Seq<Seq<char>>, is_dir: Seq<bool>, x: int, y: int, z: int)
    requires
        listed_before(names, is_dir, x, y),
        listed_before(names, is_dir, y, z),
    ensures
        listed_before(names, is_dir, x, z),
{
    if is_dir[x] == is_dir[y] && is_dir[y] == is_dir[z] {
        if names[x] != names[y] && names[y] != names[z] {
            lemma_lex_transitive(names[x], names[y], names[z]);
            if names[x] == names[z] {
                lemma_lex_asymmetric(names[x], names[y]);
            }
        } else if names[x] == names[y] && names[y] != names[z] {
        } else if names[x] != names[y] && names[y] == names[z] {
        } else {
        }
    }
}

/// `order` lists every index below `n` exactly once.
pub open spec fn is_permutation(order: Seq<usize>, n: nat) -> bool {
    &&& order.len() == n
    &&& forall|i: int| 0 <= i < n ==> #[trigger] order[i] < n
    &&& forall|i: int, j: int| 0 <= i < j < n ==> order[i] != order[j]
}

/// The order of the asset browser's entries in one folder, as indices into
/// `names` / `is_dir`: every entry once, directories first, each group
/// sorted by name, equal names in scan order.
pub fn listing_order(names: &Vec<String>, is_dir: &Vec<bool>) -> (order: Vec<usize>)
    requires
        names.len() == is_dir.len(),
    ensures
        is_permutation(order@, names.len() as nat),
        forall|i: int, j: int|
            0 <= i < j < order.len() ==> listed_before(
                names@.map_values(|s: String| s@),
                is_dir@,
                #[trigger] order@[i] as int,
                #[trigger] order@[j] as int,
            ),
{
    let n = names.len();
    let ghost keys = names@.map_values(|s: String| s@);
    let mut chars: Vec<Vec<char>> = Vec::new();
    for k in 0..n
        invariant
            n == names.len(),
            keys == names@.map_values(|s: String| s@),
            chars@.len() == k,
            forall|m: int| 0 <= m < k ==> (#[trigger] chars@[m])@ == keys[m],
    {
        chars.push(chars_of(names[k].as_str()));
    }
    let mut order: Vec<usize> = Vec::new();
    for k in 0..n
        invariant
            n == names.len(),
            n == is_dir.len(),
            keys.len() == n,
            chars@.len() == n,
            forall|m: int| 0 <= m < n ==> (#[trigger] chars@[m])@ == keys[m],
            order@.len() == k,
            forall|i: int| 0 <= i < k ==> #[trigger] order@[i] < k,
            forall|i: int, j: int| 0 <= i < j < k ==> order@[i] != order@[j],
            forall|i: int, j: int|
                0 <= i < j < k ==> listed_before(
                    keys,
                    is_dir@,
                    #[trigger] order@[i] as int,
                    #[trigger] order@[j] as int,
                ),
    {
        let mut p = order.len();
        while p > 0 && entry_before(&chars, is_dir, k, order[p - 1])
            invariant
                p <= order@.len(),
                order@.len() == k,
                k < n,
                n == is_dir.len(),
                chars@.len() == n,
                forall|m: int| 0 <= m < n ==> (#[trigger] chars@[m])@ == keys[m],
                forall|i: int| 0 <= i < k ==> #[trigger] order@[i] < k,
                forall|i: int| p <= i < k ==> listed_before(keys, is_dir@, k as int, #[trigger] order@[i] as int),
            decreases p,
        {
            p = p - 1;
        }
        proof {
            if p > 0 {
                let last = order@[p - 1] as int;
                lemma_listed_total(keys, is_dir@, k as int, last);
                assert forall|i: int| 0 <= i < p implies listed_before(keys, is_dir@, #[trigger] order@[i] as int, k as int) by {
                    if i < p - 1 {
                        lemma_listed_transitive(keys, is_dir@, order@[i] as int, last, k as int);
                    }
                }
            }
        }
        let ghost before = order@;
        order.insert(p, k);
        proof {
            assert forall|i: int, j: int| 0 <= i < j < k + 1 implies listed_before(
                keys,
                is_dir@,
                #[trigger] order@[i] as int,
                #[trigger] order@[j] as int,
            ) by {
                if j < p {
                    assert(order@[i] == before[i] && order@[j] == before[j]);
                } else if j == p {
                    assert(order@[i] == before[i]);
                } else if i == p {
                    assert(order@[j] == before[j - 1]);
                } else if i < p {
                    assert(order@[i] == before[i] && order@[j] == before[j - 1]);
                } else {
                    assert(order@[i] == before[i - 1] && order@[j] == before[j - 1]);
                }
            }
            assert forall|i: int, j: int| 0 <= i < j < k + 1 implies order@[i] != order@[j] by {
                if j < p {
                    assert(order@[i] == before[i] && order@[j] == before[j]);
                } else if j == p {
                    assert(order@[i] == before[i]);
                } else if i == p {
                    assert(order@[j] == before[j - 1]);
                } else if i < p {
                    assert(order@[i] == before[i] && order@[j] == before[j - 1]);
                } else {
                    assert(order@[i] == before[i - 1] && order@[j] == before[j - 1]);
                }
            }
            assert forall|i: int| 0 <= i < k + 1 implies #[trigger] order@[i] < k + 1 by {
                if i < p {
                    assert(order@[i] == before[i]);
                } else if i > p {
                    assert(order@[i] == before[i - 1]);
                }
            }
        }
    }
    order
}

/// Whether entry `x` is listed before entry `y`.
fn entry_before(chars: &Vec<Vec<char>>, is_dir: &Vec<bool>, x: usize, y: usize) -> (r: bool)
    requires
        x < chars.len(),
        y < chars.len(),
        chars.len() == is_dir.len(),
    ensures
        r == listed_before(chars@.map_values(|v: Vec<char>| v@), is_dir@, x as int, y as int),
{
    let ghost keys = chars@.map_values(|v: Vec<char>| v@);
    assert(keys[x as int] == chars@[x as int]@);
    assert(keys[y as int] == chars@[y as int]@);
    proof {
        lemma_lex_irreflexive(chars@[x as int]@);
        lemma_lex_irreflexive(chars@[y as int]@);
    }
    if is_dir[x] != is_dir[y] {
        is_dir[x]
    } else if name_less(&chars[x], &chars[y]) {
        true
    } else if name_less(&chars[y], &chars[x]) {
        false
    } else {
        proof {
            lemma_lex_total(chars@[x as int]@, chars@[y as int]@);
        }
        x < y
    }
}

} // verus!
