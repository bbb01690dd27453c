//! The table of registered tools and the callers that serve them.
use vstd::prelude::*;
use crate::keyed::{entry_index, lemma_entry_index, lemma_entry_index_first, lemma_entry_index_none, lookup, store, lemma_store_lookup};
use crate::text::{owned, push_char, push_text, same_text, join, views, join_strings};
use crate::tool::{Tool, ToolV};
use crate::ts_interface::{ToolInterfaceGenerator, install_path};
use crate::schema_spec::interface_text;
use crate::schema_spec::access_path;
use crate::install::{is_dotted, root_key, member_key};

verus! {

/// The caller that serves a tool: async, run on the executor, or sync, run in place.
pub enum CallerKind<A, S> {
    Async(A),
    Sync(S),
}

/// A registered tool: its descriptor, the name its provider knows it by, and its
/// caller.
pub struct ToolCallerEntry<A, S> {
    pub tool: Tool,
    pub raw_name: String,
    pub caller: CallerKind<A, S>,
}

/// The mathematical form of an entry.
pub struct EntryV<A, S> {
    pub tool: ToolV,
    pub raw_name: Seq<char>,
    pub caller: CallerKind<A, S>,
}

impl<A, S> ToolCallerEntry<A, S> {
    pub open spec fn view(&self) -> EntryV<A, S> {
        EntryV { tool: self.tool@, raw_name: self.raw_name@, caller: self.caller }
    }
}

/// `prefix.name`: the name under which a provider's tool is registered.
pub fn apply_prefix(prefix: &str, name: &str) -> (r: String)
    ensures
        r@ == prefix@ + seq!['.'] + name@,
{
    let mut r = owned(prefix);
    push_char(&mut r, '.');
    push_text(&mut r, name);
    r
}

/// Registered tools by name; registering a name again replaces its entry.
pub struct CallerTable<A, S> {
    entries: Vec<ToolCallerEntry<A, S>>,
}

impl<A, S> CallerTable<A, S> {
    /// The entries, each under its tool's name, in order of first registration.
    pub closed spec fn view(&self) -> Seq<(Seq<char>, EntryV<A, S>)> {
        Seq::new(
            self.entries@.len(),
            |i: int| (self.entries@[i].tool.name@, self.entries@[i]@),
        )
    }

    /// No name is registered twice.
    pub open spec fn wf(&self) -> bool {
        forall|i: int, j: int| 0 <= i < j < self@.len() ==> self@[i].0 != self@[j].0
    }

    pub fn new() -> (r: CallerTable<A, S>)
        ensures
            r@ == Seq::<(Seq<char>, EntryV<A, S>)>::empty(),
            r.wf(),
    {
        let r = CallerTable { entries: Vec::new() };
        assert(r@ =~= Seq::<(Seq<char>, EntryV<A, S>)>::empty());
        r
    }

    fn position(&self, name: &str) -> (r: Option<usize>)
        ensures
            match r {
                Some(i) => entry_index(self@, name@) == i && i < self@.len(),
                None => entry_index(self@, name@) == -1,
            },
    {
        let mut i: usize = 0;
        while i < self.entries.len()
            invariant
                i <= self.entries@.len(),
                self@.len() == self.entries@.len(),
                forall|j: int| 0 <= j < i ==> self@[j].0 != name@,
            decreases self.entries@.len() - i,
        {
            if same_text(self.entries[i].tool.name.as_str(), name) {
                proof {
                    lemma_entry_index_first(self@, name@, i as int);
                }
                return Some(i);
            }
            i = i + 1;
        }
        proof {
            lemma_entry_index_none(self@, name@);
        }
        None
    }

    /// The entry registered under `name`.
    pub fn get(&self, name: &str) -> (r: Option<&ToolCallerEntry<A, S>>)
        ensures
            match r {
                Some(e) => lookup(self@, name@) == Some(e@),
                None => lookup(self@, name@) is None,
            },
    {
        match self.position(name) {
            Some(i) => Some(&self.entries[i]),
            None => None,
        }
    }

    /// The descriptor registered under `name`.
    pub fn get_tool(&self, name: &str) -> (r: Option<&Tool>)
        ensures
            match r {
                Some(t) => lookup(self@, name@) is Some && lookup(self@, name@)->Some_0.tool
                    == t@,
                None => lookup(self@, name@) is None,
            },
    {
        match self.get(name) {
            Some(e) => Some(&e.tool),
            None => None,
        }
    }

    /// Copies of the registered descriptors, in order of first registration.
    pub fn get_tools(&self) -> (r: Vec<Tool>)
        requires
            self.wf(),
        ensures
            r@.len() == self@.len(),
            forall|i: int| 0 <= i < r@.len() ==> #[trigger] r@[i]@ == self@[i].1.tool,
            forall|i: int, j: int| 0 <= i < j < r@.len() ==> r@[i]@.name != r@[j]@.name,
    {
        let mut r: Vec<Tool> = Vec::new();
        let mut i: usize = 0;
        while i < self.entries.len()
            invariant
                i <= self.entries@.len(),
                self@.len() == self.entries@.len(),
                r@.len() == i,
                forall|k: int| 0 <= k < i ==> #[trigger] r@[k]@ == self@[k].1.tool,
            decreases self.entries@.len() - i,
        {
            r.push(self.entries[i].tool.copy());
            i = i + 1;
        }
        r
    }

    fn put(&mut self, entry: ToolCallerEntry<A, S>) -> (overwritten: bool)
        requires
            old(self).wf(),
        ensures
            final(self).wf(),
            final(self)@ == store(old(self)@, entry.tool.name@, entry@),
            overwritten == lookup(old(self)@, entry.tool.name@) is Some,
    {
        let ghost key = entry.tool.name@;
        let ghost ev = entry@;
        let found = self.position(entry.tool.name.as_str());
        proof {
            lemma_entry_index(self@, key);
        }
        match found {
            Some(i) => {
                self.entries.set(i, entry);
                assert(self@ =~= store(old(self)@, key, ev));
                true
            },
            None => {
                self.entries.push(entry);
                assert(self@ =~= store(old(self)@, key, ev));
                false
            },
        }
    }

    /// Registers `tool`, marked async, under its name, served by `caller` under
    /// `raw_name`; an entry already there for that name is replaced. Returns
    /// whether one was.
    pub fn register_async_tool(&mut self, tool: Tool, raw_name: String, caller: A) -> (overwritten:
        bool)
        requires
            old(self).wf(),
        ensures
            final(self).wf(),
            final(self)@ == store(
                old(self)@,
                tool.name@,
                EntryV {
                    tool: ToolV { is_async: true, ..tool@ },
                    raw_name: raw_name@,
                    caller: CallerKind::Async(caller),
                },
            ),
            overwritten == lookup(old(self)@, tool.name@) is Some,
    {
        let mut tool = tool;
        tool.is_async = true;
        self.put(ToolCallerEntry { tool, raw_name, caller: CallerKind::Async(caller) })
    }

    /// Registers `tool`, marked sync, under its name, served by `caller` under
    /// `raw_name`; an entry already there for that name is replaced. Returns
    /// whether one was.
    pub fn register_sync_tool(&mut self, tool: Tool, raw_name: String, caller: S) -> (overwritten:
        bool)
        requires
            old(self).wf(),
        ensures
            final(self).wf(),
            final(self)@ == store(
                old(self)@,
                tool.name@,
                EntryV {
                    tool: ToolV { is_async: false, ..tool@ },
                    raw_name: raw_name@,
                    caller: CallerKind::Sync(caller),
                },
            ),
            overwritten == lookup(old(self)@, tool.name@) is Some,
    {
        let mut tool = tool;
        tool.is_async = false;
        self.put(ToolCallerEntry { tool, raw_name, caller: CallerKind::Sync(caller) })
    }
}

/// What the installer binds for one tool: the namespaces to walk through, the
/// member to bind the stub at, the name to call the provider by, and the caller.
pub struct StubPlan<'a, A, S> {
    pub namespaces: Vec<String>,
    pub leaf: String,
    pub raw_name: String,
    pub caller: Option<&'a CallerKind<A, S>>,
    pub is_async: bool,
}

impl<A, S> CallerTable<A, S> {
    /// The stub of `tool`: bound at its access path, routed through the entry
    /// registered under its full name, to the provider under that entry's raw
    /// name; with no entry, under the tool's own name and with no caller.
    pub fn stub_plan<'a>(&'a self, tool: &Tool) -> (r: StubPlan<'a, A, S>)
        ensures
            access_path(tool.name@) == if r.namespaces@.len() == 1 {
                r.namespaces@[0]@ + seq!['.'] + r.leaf@
            } else {
                r.leaf@
            },
            r.namespaces@.len() <= 1,
            r.namespaces@.len() == 1 <==> is_dotted(tool.name@),
            is_dotted(tool.name@) ==> r.namespaces@[0]@ == root_key(tool.name@) && r.leaf@
                == member_key(tool.name@),
            !is_dotted(tool.name@) ==> r.leaf@ == root_key(tool.name@),
            r.is_async == tool.is_async,
            match lookup(self@, tool.name@) {
                Some(e) => r.raw_name@ == e.raw_name && r.caller == Some(&e.caller),
                None => r.raw_name@ == tool.name@ && r.caller is None,
            },
    {
        let (namespaces, leaf) = install_path(tool.name.as_str());
        match self.get(tool.name.as_str()) {
            Some(e) => StubPlan {
                namespaces,
                leaf,
                raw_name: e.raw_name.clone(),
                caller: Some(&e.caller),
                is_async: tool.is_async,
            },
            None => StubPlan {
                namespaces,
                leaf,
                raw_name: tool.name.clone(),
                caller: None,
                is_async: tool.is_async,
            },
        }
    }
}

/// The name under which a provider's tool named `n` is registered.
pub open spec fn source_key(prefix: Seq<char>, n: Seq<char>) -> Seq<char> {
    prefix + seq!['.'] + n
}

proof fn lemma_source_key_injective(prefix: Seq<char>, a: Seq<char>, b: Seq<char>)
    requires
        source_key(prefix, a) == source_key(prefix, b),
    ensures
        a == b,
{
    let k = source_key(prefix, a);
    assert(k.subrange(prefix.len() + 1int, k.len() as int) =~= a);
    assert(source_key(prefix, b).subrange(prefix.len() + 1int, k.len() as int) =~= b);
}

/// The entry of a provider's tool `t` registered under `prefix`, served by `k`.
pub open spec fn source_entry<A, S>(prefix: Seq<char>, t: ToolV, k: CallerKind<A, S>) -> EntryV<A, S> {
    EntryV {
        tool: ToolV { name: source_key(prefix, t.name), is_async: k is Async, ..t },
        raw_name: t.name,
        caller: k,
    }
}

/// The table `c` after the tools `ts` are registered in order under `prefix`,
/// the i-th served by `ks[i]`.
pub open spec fn register_all<A, S>(
    c: Seq<(Seq<char>, EntryV<A, S>)>,
    prefix: Seq<char>,
    ts: Seq<ToolV>,
    ks: Seq<CallerKind<A, S>>,
) -> Seq<(Seq<char>, EntryV<A, S>)>
    decreases ts.len(),
{
    if ts.len() == 0 || ks.len() != ts.len() {
        c
    } else {
        let prev = register_all(c, prefix, ts.drop_last(), ks.drop_last());
        store(prev, source_key(prefix, ts.last().name), source_entry(prefix, ts.last(), ks.last()))
    }
}

/// Registering a provider's tools under `prefix` leaves every name that is not
/// `prefix.` followed by one of their names as it was.
pub proof fn lemma_source_leaves_others<A, S>(
    c: Seq<(Seq<char>, EntryV<A, S>)>,
    prefix: Seq<char>,
    ts: Seq<ToolV>,
    ks: Seq<CallerKind<A, S>>,
    name: Seq<char>,
)
    requires
        ks.len() == ts.len(),
        forall|i: int| 0 <= i < ts.len() ==> source_key(prefix, #[trigger] ts[i].name) != name,
    ensures
        lookup(register_all(c, prefix, ts, ks), name) == lookup(c, name),
    decreases ts.len(),
{
    if ts.len() > 0 {
        let pt = ts.drop_last();
        assert forall|i: int| 0 <= i < pt.len() implies source_key(prefix, #[trigger] pt[i].name)
            != name by {
            assert(pt[i] == ts[i]);
        }
        lemma_source_leaves_others(c, prefix, pt, ks.drop_last(), name);
        let prev = register_all(c, prefix, pt, ks.drop_last());
        assert(source_key(prefix, ts[ts.len() - 1].name) != name);
        lemma_store_lookup(
            prev,
            source_key(prefix, ts.last().name),
            source_entry(prefix, ts.last(), ks.last()),
            name,
        );
    }
}

/// After a provider's tools are registered under `prefix`, the i-th, where no
/// later one has its name, is found under `prefix.` and its name, marked as its
/// caller says, served by that caller under the tool's own name.
pub proof fn lemma_source_registered<A, S>(
    c: Seq<(Seq<char>, EntryV<A, S>)>,
    prefix: Seq<char>,
    ts: Seq<ToolV>,
    ks: Seq<CallerKind<A, S>>,
    i: int,
)
    requires
        ks.len() == ts.len(),
        0 <= i < ts.len(),
        forall|j: int| i < j < ts.len() ==> #[trigger] ts[j].name != ts[i].name,
    ensures
        lookup(register_all(c, prefix, ts, ks), source_key(prefix, ts[i].name)) == Some(
            source_entry(prefix, ts[i], ks[i]),
        ),
    decreases ts.len(),
{
    let pt = ts.drop_last();
    let pk = ks.drop_last();
    let prev = register_all(c, prefix, pt, pk);
    let key = source_key(prefix, ts.last().name);
    let name = source_key(prefix, ts[i].name);
    lemma_store_lookup(prev, key, source_entry(prefix, ts.last(), ks.last()), name);
    if i < ts.len() - 1 {
        assert(ts[ts.len() - 1].name != ts[i].name);
        if key == name {
            lemma_source_key_injective(prefix, ts.last().name, ts[i].name);
        }
        assert(pt[i] == ts[i] && pk[i] == ks[i]);
        assert forall|j: int| i < j < pt.len() implies #[trigger] pt[j].name != pt[i].name by {
            assert(pt[j] == ts[j]);
        }
        lemma_source_registered(c, prefix, pt, pk, i);
    }
}

impl<A: Clone, S: Clone> CallerTable<A, S> {
    /// Registers the tools of an async provider under `prefix`: each as
    /// `prefix.name`, marked async, served by a clone of `caller` under its own
    /// name (see `register_all`).
    pub fn register_async_source_tools(&mut self, prefix: &str, tools: &Vec<Tool>, caller: &A)
        requires
            old(self).wf(),
        ensures
            final(self).wf(),
            exists|ks: Seq<CallerKind<A, S>>|
                {
                    &&& ks.len() == tools@.len()
                    &&& forall|i: int|
                        0 <= i < ks.len() ==> #[trigger] ks[i] is Async && cloned(*caller, ks[i]->Async_0)
                    &&& final(self)@ == register_all(old(self)@, prefix@, tool_views(tools@), ks)
                },
    {
        let ghost ks: Seq<CallerKind<A, S>> = Seq::empty();
        let ghost c0 = self@;
        let mut i: usize = 0;
        while i < tools.len()
            invariant
                i <= tools@.len(),
                self.wf(),
                ks.len() == i,
                forall|k: int| 0 <= k < i ==> #[trigger] ks[k] is Async && cloned(*caller, ks[k]->Async_0),
                self@ == register_all(c0, prefix@, tool_views(tools@).subrange(0, i as int), ks),
            decreases tools@.len() - i,
        {
            let mut t = tools[i].copy();
            let raw = t.name.clone();
            t.name = apply_prefix(prefix, raw.as_str());
            let c = caller.clone();
            let ghost k: CallerKind<A, S> = CallerKind::Async(c);
            self.register_async_tool(t, raw, c);
            proof {
                let next = tool_views(tools@).subrange(0, i + 1);
                assert(next.drop_last() =~= tool_views(tools@).subrange(0, i as int));
                assert(ks.push(k).drop_last() =~= ks);
                assert(next.last() == tools@[i as int]@);
                ks = ks.push(k);
            }
            i = i + 1;
        }
        assert(tool_views(tools@).subrange(0, tools@.len() as int) =~= tool_views(tools@));
    }

    /// Registers the tools of a sync provider under `prefix`: each as
    /// `prefix.name`, marked sync, served by a clone of `caller` under its own
    /// name (see `register_all`).
    pub fn register_sync_source_tools(&mut self, prefix: &str, tools: &Vec<Tool>, caller: &S)
        requires
            old(self).wf(),
        ensures
            final(self).wf(),
            exists|ks: Seq<CallerKind<A, S>>|
                {
                    &&& ks.len() == tools@.len()
                    &&& forall|i: int|
                        0 <= i < ks.len() ==> #[trigger] ks[i] is Sync && cloned(*caller, ks[i]->Sync_0)
                    &&& final(self)@ == register_all(old(self)@, prefix@, tool_views(tools@), ks)
                },
    {
        let ghost ks: Seq<CallerKind<A, S>> = Seq::empty();
        let ghost c0 = self@;
        let mut i: usize = 0;
        while i < tools.len()
            invariant
                i <= tools@.len(),
                self.wf(),
                ks.len() == i,
                forall|k: int| 0 <= k < i ==> #[trigger] ks[k] is Sync && cloned(*caller, ks[k]->Sync_0),
                self@ == register_all(c0, prefix@, tool_views(tools@).subrange(0, i as int), ks),
            decreases tools@.len() - i,
        {
            let mut t = tools[i].copy();
            let raw = t.name.clone();
            t.name = apply_prefix(prefix, raw.as_str());
            let c = caller.clone();
            let ghost k: CallerKind<A, S> = CallerKind::Sync(c);
            self.register_sync_tool(t, raw, c);
            proof {
                let next = tool_views(tools@).subrange(0, i + 1);
                assert(next.drop_last() =~= tool_views(tools@).subrange(0, i as int));
                assert(ks.push(k).drop_last() =~= ks);
                assert(next.last() == tools@[i as int]@);
                ks = ks.push(k);
            }
            i = i + 1;
        }
        assert(tool_views(tools@).subrange(0, tools@.len() as int) =~= tool_views(tools@));
    }
}

/// The header above all interface texts.
pub open spec fn interfaces_header() -> Seq<char> {
    "// Auto-generated TypeScript interfaces for UTCP tools\n"@
}

/// The interface texts of `ts`, in order.
pub open spec fn interface_texts(ts: Seq<ToolV>) -> Seq<Seq<char>> {
    ts.map_values(|t: ToolV| interface_text(t))
}

pub open spec fn tool_views(v: Seq<Tool>) -> Seq<ToolV> {
    v.map_values(|t: Tool| t@)
}

/// The interface texts of `tools` under one header, separated by blank lines.
pub fn all_interfaces(generator: &mut ToolInterfaceGenerator, tools: &Vec<Tool>) -> (r: String)
    requires
        old(generator).wf(),
    ensures
        final(generator).wf(),
        r@ == interfaces_header() + join(interface_texts(tool_views(tools@)), "\n\n"@),
{
    let mut parts: Vec<String> = Vec::new();
    let mut i: usize = 0;
    while i < tools.len()
        invariant
            i <= tools@.len(),
            generator.wf(),
            parts@.len() == i,
            forall|k: int| 0 <= k < i ==> #[trigger] parts@[k]@ == interface_text(tools@[k]@),
        decreases tools@.len() - i,
    {
        let t = generator.tool_to_typescript_interface(&tools[i]);
        parts.push(t);
        i = i + 1;
    }
    assert(views(parts@) =~= interface_texts(tool_views(tools@)));
    let mut r = owned("// Auto-generated TypeScript interfaces for UTCP tools\n");
    let body = join_strings(&parts, "\n\n");
    push_text(&mut r, body.as_str());
    r
}

} // verus!
