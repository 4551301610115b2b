//! Rules of scene duplication: what a copy is called and where it is
//! attached.

use vstd::prelude::*;
use crate::hierarchy::{SceneGraph, parent_in};
use crate::text::push_str;

verus! {

/// The name of a copy: a renamed copy of a named entity gets ` (copy)`
/// appended, an unnamed entity's copy is called `Entity`.
pub open spec fn copy_name_text(name: Option<Seq<char>>, rename: bool) -> Seq<char> {
    match name {
        Some(n) => if rename {
            n + " (copy)"@
        } else {
            n
        },
        None => "Entity"@,
    }
}

/// The name of a copy of an entity named `name`.
pub fn copy_name(name: Option<&str>, rename: bool) -> (r: String)
    ensures
        r@ == copy_name_text(
            match name {
                Some(n) => Some(n@),
                None => None,
            },
            rename,
        ),
{
    let mut r = String::new();
    match name {
        Some(n) => {
            push_str(&mut r, n);
            if rename {
                push_str(&mut r, " (copy)");
            }
        },
        None => {
            push_str(&mut r, "Entity");
        },
    }
    r
}

/// Where a copy of `source` is attached: to `parent_override` when given
/// (the copy of its parent), otherwise to the source's own parent; and only
/// if that entity exists.
pub open spec fn copy_attach(m: Map<u64, Option<u64>>, source: u64, parent_override: Option<u64>) -> Option<
    u64,
> {
    let target = match parent_override {
        Some(p) => Some(p),
        None => parent_in(m, source),
    };
    match target {
        Some(p) => if m.contains_key(p) {
            Some(p)
        } else {
            None
        },
        None => None,
    }
}

/// Where a copy of `source` is attached.
pub fn copy_attach_target(graph: &SceneGraph, source: u64, parent_override: Option<u64>) -> (r: Option<u64>)
    ensures
        r == copy_attach(graph@, source, parent_override),
{
    let target = match parent_override {
        Some(p) => Some(p),
        None => graph.parent(source),
    };
    match target {
        Some(p) => if graph.contains(p) {
            Some(p)
        } else {
            None
        },
        None => None,
    }
}

/// Law: a duplicated root entity's copy stays under the same parent (when
/// that parent exists) and a root entity's copy stays at root level.
pub proof fn lemma_copy_stays_with_parent(m: Map<u64, Option<u64>>, source: u64)
    ensures
        copy_attach(m, source, None) == match parent_in(m, source) {
            Some(p) => if m.contains_key(p) {
                Some(p)
            } else {
                None
            },
            None => None,
        },
        parent_in(m, source) is None ==> copy_attach(m, source, None) is None,
{
}

} // verus!
