//! The tools by name.
use vstd::prelude::*;
use crate::text::{push_str, str_eq};
use crate::types::{ToolError, ToolErrorView};

verus! {

/// Tools by name, in the order they were first registered; each name occurs once.
pub struct ToolRegistry<T> {
    tools: Vec<(String, T)>,
}

/// The error for a name that no tool has.
pub open spec fn unknown_tool(name: Seq<char>) -> ToolErrorView {
    ToolErrorView::NonRetryable("unknown tool: "@ + name)
}

/// No name occurs twice among `entries`.
pub open spec fn names_distinct<T>(entries: Seq<(Seq<char>, T)>) -> bool {
    forall|i: int, j: int|
        0 <= i < j < entries.len() ==> #[trigger] entries[i].0 != #[trigger] entries[j].0
}

impl<T> ToolRegistry<T> {
    /// The registered tools with their names, in registration order.
    pub closed spec fn entries(&self) -> Seq<(Seq<char>, T)> {
        self.tools@.map_values(|e: (String, T)| (e.0@, e.1))
    }

    #[verifier::type_invariant]
    spec fn names_unique(&self) -> bool {
        forall|i: int, j: int|
            0 <= i < j < self.tools@.len() ==> #[trigger] self.tools@[i].0@ != #[trigger] self.tools@[j].0@
    }

    /// The tool registered under `name`, where there is one.
    pub open spec fn lookup(&self, name: Seq<char>) -> Option<T> {
        if exists|i: int| 0 <= i < self.entries().len() && #[trigger] self.entries()[i].0 == name {
            Some(
                self.entries()[choose|i: int|
                    0 <= i < self.entries().len() && #[trigger] self.entries()[i].0 == name].1,
            )
        } else {
            None
        }
    }

    pub fn new() -> (res: ToolRegistry<T>)
        ensures
            res.entries().len() == 0,
    {
        let res = ToolRegistry { tools: Vec::new() };
        assert(res.entries() =~= Seq::<(Seq<char>, T)>::empty());
        res
    }

    /// The number of registered tools, one for each name.
    pub fn len(&self) -> (res: usize)
        ensures
            res == self.entries().len(),
            names_distinct(self.entries()),
    {
        proof {
            use_type_invariant(self);
        }
        self.tools.len()
    }

    /// The tool at position `i` of the registration order.
    pub fn tool_at(&self, i: usize) -> (res: &T)
        requires
            i < self.entries().len(),
        ensures
            *res == self.entries()[i as int].1,
    {
        &self.tools[i].1
    }

    fn position(&self, name: &str) -> (res: Option<usize>)
        ensures
            match res {
                Some(i) => i < self.entries().len() && self.entries()[i as int].0 == name@,
                None => forall|i: int|
                    0 <= i < self.entries().len() ==> #[trigger] self.entries()[i].0 != name@,
            },
    {
        let mut i: usize = 0;
        while i < self.tools.len()
            invariant
                0 <= i <= self.tools@.len(),
                forall|k: int| 0 <= k < i ==> #[trigger] self.entries()[k].0 != name@,
            decreases self.tools@.len() - i,
        {
            if str_eq(self.tools[i].0.as_str(), name) {
                return Some(i);
            }
            i = i + 1;
        }
        None
    }

    /// Registers `tool` under `name`: in the place of a tool of that name where there is one,
    /// after the others otherwise.
    pub fn register(&mut self, name: String, tool: T)
        ensures
            final(self).lookup(name@) == Some(tool),
            names_distinct(final(self).entries()),
            forall|other: Seq<char>| other != name@ ==> #[trigger] final(self).lookup(other)
                == old(self).lookup(other),
            old(self).lookup(name@) is None ==> final(self).entries() == old(self).entries().push(
                (name@, tool),
            ),
            old(self).lookup(name@) is Some ==> exists|i: int|
                0 <= i < old(self).entries().len() && #[trigger] old(self).entries()[i].0 == name@
                    && final(self).entries() == old(self).entries().update(i, (name@, tool)),
    {
        proof {
            use_type_invariant(&*self);
        }
        let ghost n = name@;
        let ghost e0 = self.entries();
        let ghost t0 = self.tools@;
        assert(forall|i: int, j: int|
            0 <= i < j < t0.len() ==> #[trigger] t0[i].0@ != #[trigger] t0[j].0@);
        match self.position(name.as_str()) {
            Some(i) => {
                let mut tools = Vec::new();
                std::mem::swap(&mut tools, &mut self.tools);
                tools.set(i, (name, tool));
                assert(tools@ == t0.update(i as int, tools@[i as int]));
                assert(t0[i as int].0@ == n);
                assert forall|a: int, b: int|
                    0 <= a < b < tools@.len() implies #[trigger] tools@[a].0@ != #[trigger] tools@[b].0@ by {
                    assert(tools@[a].0@ == t0[a].0@);
                    assert(tools@[b].0@ == t0[b].0@);
                }
                self.tools = tools;
                proof {
                    let e1 = self.entries();
                    assert(e1 =~= e0.update(i as int, (n, tool)));
                    assert(e1[i as int].0 == n);
                    assert(e0[i as int].0 == n);
                    assert forall|other: Seq<char>| other != n implies #[trigger] self.lookup(other)
                        == old(self).lookup(other) by {
                        if exists|k: int| 0 <= k < e1.len() && #[trigger] e1[k].0 == other {
                            let k = choose|k: int| 0 <= k < e1.len() && #[trigger] e1[k].0 == other;
                            assert(e0[k].0 == other);
                        }
                        if exists|k: int| 0 <= k < e0.len() && #[trigger] e0[k].0 == other {
                            let k = choose|k: int| 0 <= k < e0.len() && #[trigger] e0[k].0 == other;
                            assert(e1[k].0 == other);
                        }
                    }
                }
            },
            None => {
                let mut tools = Vec::new();
                std::mem::swap(&mut tools, &mut self.tools);
                tools.push((name, tool));
                assert forall|a: int, b: int|
                    0 <= a < b < tools@.len() implies #[trigger] tools@[a].0@ != #[trigger] tools@[b].0@ by {
                    if b == t0.len() {
                        assert(e0[a].0 != n);
                        assert(tools@[a] == t0[a]);
                    } else {
                        assert(tools@[a] == t0[a]);
                        assert(tools@[b] == t0[b]);
                    }
                }
                self.tools = tools;
                proof {
                    let e1 = self.entries();
                    assert(e1 =~= e0.push((n, tool)));
                    assert(e1[e0.len() as int].0 == n);
                    assert forall|other: Seq<char>| other != n implies #[trigger] self.lookup(other)
                        == old(self).lookup(other) by {
                        if exists|k: int| 0 <= k < e1.len() && #[trigger] e1[k].0 == other {
                            let k = choose|k: int| 0 <= k < e1.len() && #[trigger] e1[k].0 == other;
                            assert(e0[k].0 == other);
                        }
                        if exists|k: int| 0 <= k < e0.len() && #[trigger] e0[k].0 == other {
                            let k = choose|k: int| 0 <= k < e0.len() && #[trigger] e0[k].0 == other;
                            assert(e1[k].0 == other);
                        }
                    }
                }
            },
        }
        proof {
            use_type_invariant(&*self);
            let e1 = self.entries();
            assert(forall|i: int, j: int|
                0 <= i < j < e1.len() ==> #[trigger] e1[i].0 != #[trigger] e1[j].0);
        }
    }

    /// The tool registered under `name`, or an error naming the unknown tool.
    pub fn resolve(&self, name: &str) -> (res: Result<&T, ToolError>)
        ensures
            match self.lookup(name@) {
                Some(t) => res matches Ok(r) && *r == t,
                None => res matches Err(e) && e@ == unknown_tool(name@),
            },
    {
        proof {
            use_type_invariant(self);
            let e = self.entries();
            assert(forall|i: int, j: int|
                0 <= i < j < e.len() ==> #[trigger] e[i].0 != #[trigger] e[j].0);
        }
        match self.position(name) {
            Some(i) => Ok(&self.tools[i].1),
            None => {
                let mut m = "unknown tool: ".to_string();
                push_str(&mut m, name);
                Err(ToolError::NonRetryable(m))
            },
        }
    }
}

} // verus!
