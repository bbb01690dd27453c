//! What installing tool stubs does to the script's global object, and the law
//! that every installed tool stays reachable.
use vstd::prelude::*;
use crate::schema_spec::{namespace_of, leaf_of, sanitize};

verus! {

/// A binding on the global object: whether it is an object, whether it can be
/// called, and the names of the stubs bound on it.
pub struct Binding {
    pub object: bool,
    pub callable: bool,
    pub members: Set<Seq<char>>,
}

/// The global object, by key.
pub type Globals = Map<Seq<char>, Binding>;

/// Whether the tool named `name` is installed inside a namespace.
pub open spec fn is_dotted(name: Seq<char>) -> bool {
    name.contains('.')
}

/// The global key a tool's stub is reached through: its namespace, or its own
/// identifier.
pub open spec fn root_key(name: Seq<char>) -> Seq<char> {
    if is_dotted(name) {
        namespace_of(name)
    } else {
        sanitize(name)
    }
}

/// The stub's member name on its namespace.
pub open spec fn member_key(name: Seq<char>) -> Seq<char> {
    leaf_of(name)
}

/// What the installer does at a namespace key.
pub enum NamespaceStep {
    /// Nothing is bound there: bind a fresh object.
    Create,
    /// An object is bound there: bind the stub on it.
    Reuse,
    /// Something else is bound there: installation fails.
    Fail,
}

/// The step at a namespace key, from whether something is bound there and
/// whether it is an object.
pub fn namespace_step(bound: bool, is_object: bool) -> (r: NamespaceStep)
    ensures
        !bound ==> r is Create,
        bound && is_object ==> r is Reuse,
        bound && !is_object ==> r is Fail,
{
    if !bound {
        NamespaceStep::Create
    } else if is_object {
        NamespaceStep::Reuse
    } else {
        NamespaceStep::Fail
    }
}

/// Installs the stub of the tool named `name`: a bare name binds a callable at
/// the root; a dotted one binds the stub on the namespace object, reusing the one
/// bound there or creating it where nothing is. Where something else is bound at
/// the namespace key, installation fails.
pub open spec fn install(g: Globals, name: Seq<char>) -> Option<Globals> {
    if is_dotted(name) {
        let n = root_key(name);
        if !g.contains_key(n) {
            Some(
                g.insert(
                    n,
                    Binding { object: true, callable: false, members: set![member_key(name)] },
                ),
            )
        } else if g[n].object {
            Some(g.insert(n, Binding { members: g[n].members.insert(member_key(name)), ..g[n] }))
        } else {
            None
        }
    } else {
        Some(
            g.insert(root_key(name), Binding { object: true, callable: true, members: Set::empty() }),
        )
    }
}

/// Installs the stubs of `names`, in order; nothing where one of them fails.
pub open spec fn install_all(g: Globals, names: Seq<Seq<char>>) -> Option<Globals>
    decreases names.len(),
{
    if names.len() == 0 {
        Some(g)
    } else {
        match install_all(g, names.drop_last()) {
            Some(h) => install(h, names.last()),
            None => None,
        }
    }
}

/// Whether the access path of the tool named `name` reaches a stub on `g`.
pub open spec fn reachable(g: Globals, name: Seq<char>) -> bool {
    let n = root_key(name);
    if is_dotted(name) {
        g.contains_key(n) && g[n].object && g[n].members.contains(member_key(name))
    } else {
        g.contains_key(n) && g[n].object && g[n].callable
    }
}

/// No bare tool is installed, after a dotted one, at the key of that one's
/// namespace.
pub open spec fn no_shadowing(names: Seq<Seq<char>>) -> bool {
    forall|i: int, j: int|
        0 <= i < j < names.len() && is_dotted(names[i]) && !is_dotted(names[j]) ==> root_key(
            names[i],
        ) != root_key(names[j])
}

proof fn lemma_install_keeps(g: Globals, earlier: Seq<char>, later: Seq<char>)
    requires
        reachable(g, earlier),
        install(g, later) is Some,
        is_dotted(earlier) && !is_dotted(later) ==> root_key(earlier) != root_key(later),
    ensures
        reachable(install(g, later)->Some_0, earlier),
{
    let h = install(g, later)->Some_0;
    if root_key(later) == root_key(earlier) {
        if is_dotted(later) {
            assert(h[root_key(later)].members.contains(member_key(later)));
        }
    }
}

proof fn lemma_install_last(g: Globals, name: Seq<char>)
    requires
        install(g, name) is Some,
    ensures
        reachable(install(g, name)->Some_0, name),
{
}

/// After the stubs of `names` are installed in order without failure, the access
/// path of every one of them reaches a stub, unless a later bare tool took the
/// key of an earlier tool's namespace.
pub proof fn lemma_installed_tools_reachable(g: Globals, names: Seq<Seq<char>>)
    requires
        no_shadowing(names),
        install_all(g, names) is Some,
    ensures
        forall|i: int|
            0 <= i < names.len() ==> reachable(install_all(g, names)->Some_0, #[trigger] names[i]),
    decreases names.len(),
{
    if names.len() > 0 {
        let pre = names.drop_last();
        assert(no_shadowing(pre)) by {
            assert forall|i: int, j: int|
                0 <= i < j < pre.len() && is_dotted(pre[i]) && !is_dotted(pre[j]) implies root_key(
                pre[i],
            ) != root_key(pre[j]) by {
                assert(pre[i] == names[i] && pre[j] == names[j]);
            }
        }
        assert(install_all(g, pre) is Some);
        lemma_installed_tools_reachable(g, pre);
        let before = install_all(g, pre)->Some_0;
        assert forall|i: int| 0 <= i < names.len() implies reachable(
            install_all(g, names)->Some_0,
            #[trigger] names[i],
        ) by {
            if i < names.len() - 1 {
                assert(names[i] == pre[i]);
                assert(reachable(before, pre[i]));
                lemma_install_keeps(before, names[i], names.last());
            } else {
                lemma_install_last(before, names.last());
            }
        }
    }
}

} // verus!
