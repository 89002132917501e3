//! The dynamic environment: the value cell of each symbol and the binding stack that saves
//! the values shadowed by dynamic bindings and the cleanups of unwind-protect.
use vstd::prelude::*;

use crate::value::Value;

verus! {

/// An entry of the binding stack.
#[derive(Clone, Copy, Debug, PartialEq, Eq, Structural)]
pub enum Binding {
    /// Unbinding gives `symbol` back the value `saved` (`None`: void).
    Var { symbol: u32, saved: Option<Value> },
    /// Unbinding runs the procedure `handler`, with no arguments, before unbinding goes on.
    Cleanup { handler: Value },
}

#[derive(Debug)]
pub struct Env {
    /// The value of each interned symbol, by index; `None` where it is void.
    pub values: Vec<Option<Value>>,
    pub bindings: Vec<Binding>,
}

#[verifier::ext_equal]
pub ghost struct EnvView {
    pub values: Seq<Option<Value>>,
    pub bindings: Seq<Binding>,
}

impl View for Env {
    type V = EnvView;

    open spec fn view(&self) -> EnvView {
        EnvView { values: self.values@, bindings: self.bindings@ }
    }
}

pub open spec fn known(e: EnvView, sym: u32) -> bool {
    (sym as int) < e.values.len()
}

/// The value of `sym`, or `None` where it is void or unknown.
pub open spec fn lookup_spec(e: EnvView, sym: u32) -> Option<Value> {
    if known(e, sym) {
        e.values[sym as int]
    } else {
        None
    }
}

pub open spec fn set_spec(e: EnvView, sym: u32, v: Value) -> EnvView {
    EnvView { values: e.values.update(sym as int, Some(v)), ..e }
}

pub open spec fn bind_spec(e: EnvView, sym: u32, v: Value) -> EnvView {
    EnvView {
        values: e.values.update(sym as int, Some(v)),
        bindings: e.bindings.push(Binding::Var { symbol: sym, saved: e.values[sym as int] }),
    }
}

/// Records `handler` as a cleanup to run when its entry is unwound.
pub open spec fn protect_spec(e: EnvView, handler: Value) -> EnvView {
    EnvView { bindings: e.bindings.push(Binding::Cleanup { handler }), ..e }
}

/// Pops the newest entry; a variable gets its saved value back.
pub open spec fn pop_binding_spec(e: EnvView) -> EnvView {
    match e.bindings.last() {
        Binding::Var { symbol, saved } => EnvView {
            values: if (symbol as int) < e.values.len() {
                e.values.update(symbol as int, saved)
            } else {
                e.values
            },
            bindings: e.bindings.drop_last(),
        },
        Binding::Cleanup { handler } => EnvView { bindings: e.bindings.drop_last(), ..e },
    }
}

/// Pops entries, newest first, until `depth` remain or a cleanup entry has been popped,
/// whichever comes first: a cleanup must run before unbinding goes on.
pub open spec fn unwind_spec(e: EnvView, depth: int) -> EnvView
    decreases e.bindings.len(),
{
    if e.bindings.len() <= depth || e.bindings.len() == 0 {
        e
    } else if e.bindings.last() is Cleanup {
        pop_binding_spec(e)
    } else {
        unwind_spec(pop_binding_spec(e), depth)
    }
}

/// The handler of the cleanup entry at which [`unwind_spec`] stops, if it stops at one.
pub open spec fn unwind_cleanup(e: EnvView, depth: int) -> Option<Value>
    decreases e.bindings.len(),
{
    if e.bindings.len() <= depth || e.bindings.len() == 0 {
        None
    } else if let Binding::Cleanup { handler } = e.bindings.last() {
        Some(handler)
    } else {
        unwind_cleanup(pop_binding_spec(e), depth)
    }
}

/// A dynamic binding followed by one unbind gives the symbol back the value it had before
/// the binding, whatever was assigned to it in between, and leaves the binding stack as it
/// was.
pub proof fn lemma_bind_set_unbind(e: EnvView, sym: u32, v: Value, w: Value)
    requires
        known(e, sym),
    ensures
        unwind_spec(set_spec(bind_spec(e, sym, v), sym, w), e.bindings.len() as int) == e,
        unwind_spec(bind_spec(e, sym, v), e.bindings.len() as int) == e,
        unwind_cleanup(set_spec(bind_spec(e, sym, v), sym, w), e.bindings.len() as int) is None,
        unwind_cleanup(bind_spec(e, sym, v), e.bindings.len() as int) is None,
{
    let b = bind_spec(e, sym, v);
    let s = set_spec(b, sym, w);
    assert(pop_binding_spec(s).values =~= e.values);
    assert(pop_binding_spec(s).bindings =~= e.bindings);
    assert(pop_binding_spec(b).values =~= e.values);
    assert(pop_binding_spec(b).bindings =~= e.bindings);
    assert(unwind_spec(pop_binding_spec(s), e.bindings.len() as int) == pop_binding_spec(s));
    assert(unwind_spec(pop_binding_spec(b), e.bindings.len() as int) == pop_binding_spec(b));
    assert(unwind_cleanup(pop_binding_spec(s), e.bindings.len() as int) is None);
    assert(unwind_cleanup(pop_binding_spec(b), e.bindings.len() as int) is None);
}

/// Unbinding a cleanup entry right after it was pushed stops there, asks for exactly its
/// handler to run, and leaves every variable and the rest of the binding stack as they were.
pub proof fn lemma_protect_then_unbind(e: EnvView, handler: Value)
    ensures
        unwind_spec(protect_spec(e, handler), e.bindings.len() as int) == e,
        unwind_cleanup(protect_spec(e, handler), e.bindings.len() as int) == Some(handler),
{
    let p = protect_spec(e, handler);
    assert(pop_binding_spec(p) =~= e);
}

impl Env {
    pub fn new() -> (e: Env)
        ensures
            e@.values == Seq::<Option<Value>>::empty(),
            e@.bindings == Seq::<Binding>::empty(),
    {
        Env { values: Vec::new(), bindings: Vec::new() }
    }

    /// Adds a symbol, void at first, and returns its index.
    pub fn intern(&mut self) -> (r: Option<u32>)
        ensures
            old(self)@.values.len() < u32::MAX ==> r == Some(old(self)@.values.len() as u32)
                && final(self)@ == (EnvView { values: old(self)@.values.push(None), ..old(self)@ }),
            old(self)@.values.len() >= u32::MAX ==> r is None && final(self)@ == old(self)@,
    {
        let n = self.values.len();
        if n >= u32::MAX as usize {
            return None;
        }
        self.values.push(None);
        assert(self@ =~= EnvView { values: old(self)@.values.push(None), ..old(self)@ });
        Some(n as u32)
    }

    pub fn lookup(&self, sym: u32) -> (r: Option<Value>)
        ensures
            r == lookup_spec(self@, sym),
    {
        if (sym as usize) < self.values.len() {
            self.values[sym as usize]
        } else {
            None
        }
    }

    pub fn depth(&self) -> (r: usize)
        ensures
            r == self@.bindings.len(),
    {
        self.bindings.len()
    }

    /// Assigns `v` to a known symbol.
    pub fn set(&mut self, sym: u32, v: Value)
        requires
            known(old(self)@, sym),
        ensures
            final(self)@ == set_spec(old(self)@, sym, v),
    {
        self.values.set(sym as usize, Some(v));
    }

    /// Binds a known symbol to `v`, saving its current value on the binding stack.
    pub fn bind(&mut self, sym: u32, v: Value)
        requires
            known(old(self)@, sym),
        ensures
            final(self)@ == bind_spec(old(self)@, sym, v),
    {
        let saved = self.values[sym as usize];
        self.bindings.push(Binding::Var { symbol: sym, saved });
        self.values.set(sym as usize, Some(v));
    }

    /// Pops entries, restoring the saved values, until `depth` remain or a cleanup entry
    /// has been popped; returns that entry's handler, which must run before unbinding goes on.
    pub fn unbind_to(&mut self, depth: usize) -> (r: Option<Value>)
        ensures
            final(self)@ == unwind_spec(old(self)@, depth as int),
            r == unwind_cleanup(old(self)@, depth as int),
    {
        while self.bindings.len() > depth
            invariant
                unwind_spec(self@, depth as int) == unwind_spec(old(self)@, depth as int),
                unwind_cleanup(self@, depth as int) == unwind_cleanup(old(self)@, depth as int),
            decreases self.bindings.len(),
        {
            let ghost before = self@;
            match self.bindings.pop().unwrap() {
                Binding::Var { symbol, saved } => {
                    if (symbol as usize) < self.values.len() {
                        self.values.set(symbol as usize, saved);
                    }
                    assert(self@ =~= pop_binding_spec(before));
                },
                Binding::Cleanup { handler } => {
                    assert(self@ =~= pop_binding_spec(before));
                    return Some(handler);
                },
            }
        }
        None
    }

    /// Pushes a cleanup entry for `handler`.
    pub fn protect(&mut self, handler: Value)
        ensures
            final(self)@ == protect_spec(old(self)@, handler),
    {
        self.bindings.push(Binding::Cleanup { handler });
        assert(self@ =~= protect_spec(old(self)@, handler));
    }

}

} // verus!
