//! The append-only registry of generated thunks, keyed by owning-component
//! identity, and the bootstrap walk that a component instance runs once at
//! construction: look up the thunks destined for it and invoke each in
//! registration order, failing fast on the first error.

use vstd::prelude::*;
use crate::bytes::{bytes_eq, clone_bytes};
use crate::thunk::{RegistrationThunk, SpecThunk, chain_spec, clone_thunk, effective_handler};
use crate::record::pairs_view;

verus! {

/// The view of a sequence of thunks.
pub open spec fn thunks_view(s: Seq<RegistrationThunk>) -> Seq<SpecThunk> {
    s.map_values(|t: RegistrationThunk| t@)
}

/// The append-only registry: all generated thunks in registration order.
/// Entries are only ever appended, never removed or reordered, so the slice
/// destined for one component keeps declaration order.
pub struct Registry {
    thunks: Vec<RegistrationThunk>,
}

impl View for Registry {
    type V = Seq<SpecThunk>;

    closed spec fn view(&self) -> Seq<SpecThunk> {
        thunks_view(self.thunks@)
    }
}

/// The thunks of `s` whose owning component is `key`, in order.
pub open spec fn matching(s: Seq<SpecThunk>, key: Seq<u8>) -> Seq<SpecThunk>
    decreases s.len(),
{
    if s.len() == 0 {
        Seq::empty()
    } else if s.last().plugin == key {
        matching(s.drop_last(), key).push(s.last())
    } else {
        matching(s.drop_last(), key)
    }
}

impl Registry {
    /// An empty registry.
    pub fn new() -> (r: Registry)
        ensures
            r@ == Seq::<SpecThunk>::empty(),
    {
        let r = Registry { thunks: Vec::new() };
        proof {
            assert(r@ =~= Seq::<SpecThunk>::empty());
        }
        r
    }

    /// Appends one generated thunk. This is the only way the registry ever
    /// changes.
    pub fn submit(&mut self, t: RegistrationThunk)
        ensures
            final(self)@ == old(self)@.push(t@),
    {
        let ghost prev = self.thunks@;
        self.thunks.push(t);
        proof {
            assert(thunks_view(prev.push(t)) =~= thunks_view(prev).push(t@));
        }
    }

    /// How many thunks the registry holds in all.
    pub fn len(&self) -> (n: usize)
        ensures
            n == self@.len(),
    {
        self.thunks.len()
    }

    /// The thunks registered for the component `key`, in registration order.
    /// A component nothing was registered for gets the empty sequence.
    pub fn entries_for(&self, key: &[u8]) -> (r: Vec<RegistrationThunk>)
        ensures
            thunks_view(r@) == matching(self@, key@),
    {
        let mut out: Vec<RegistrationThunk> = Vec::new();
        let mut i: usize = 0;
        proof {
            assert(thunks_view(Seq::<RegistrationThunk>::empty()) =~= Seq::<SpecThunk>::empty());
            assert(self@.subrange(0, 0) =~= Seq::<SpecThunk>::empty());
        }
        while i < self.thunks.len()
            invariant
                i <= self.thunks@.len(),
                thunks_view(out@) =~= matching(self@.subrange(0, i as int), key@),
            decreases self.thunks@.len() - i,
        {
            let ghost prevout = out@;
            if bytes_eq(self.thunks[i].plugin.as_slice(), key) {
                out.push(clone_thunk(&self.thunks[i]));
                proof {
                    assert(thunks_view(prevout.push(out@.last())) =~= thunks_view(prevout).push(
                        out@.last()@,
                    ));
                }
            }
            i += 1;
            proof {
                assert(self@.subrange(0, i as int).drop_last() =~= self@.subrange(0, i - 1));
                assert(self@.subrange(0, i as int).last() == self.thunks@[i - 1]@);
                assert(thunks_view(out@) =~= matching(self@.subrange(0, i as int), key@));
            }
        }
        proof {
            assert(self@.subrange(0, self.thunks@.len() as int) =~= self@);
        }
        out
    }
}

/// The one way a thunk invocation can fail: the owning component detects a
/// double registration of the same handler under the same phase.
#[derive(Clone, Copy, Debug, PartialEq, Eq, Structural)]
pub enum BootstrapError {
    DuplicateRegistration,
}

/// Mathematical image of a component instance.
#[verifier::ext_equal]
pub ghost struct SpecInstance {
    pub identity: Seq<u8>,
    pub handlers: Seq<(Seq<u8>, Seq<u8>)>,
}

/// The runtime representation of an owning component: its identity, and the
/// `(phase, effective handler)` registrations it has accepted, in order.
pub struct ComponentInstance {
    identity: Vec<u8>,
    handlers: Vec<(Vec<u8>, Vec<u8>)>,
}

impl View for ComponentInstance {
    type V = SpecInstance;

    closed spec fn view(&self) -> SpecInstance {
        SpecInstance { identity: self.identity@, handlers: pairs_view(self.handlers@) }
    }
}

/// What one registration does to an instance's handler list: refused if the
/// same pair is already present, else appended.
pub open spec fn add_handler_spec(hs: Seq<(Seq<u8>, Seq<u8>)>, p: (Seq<u8>, Seq<u8>)) -> Result<
    Seq<(Seq<u8>, Seq<u8>)>,
    BootstrapError,
> {
    if hs.contains(p) {
        Result::Err(BootstrapError::DuplicateRegistration)
    } else {
        Result::Ok(hs.push(p))
    }
}

impl ComponentInstance {
    /// A fresh instance with the given identity and no registrations.
    pub fn new(identity: Vec<u8>) -> (r: ComponentInstance)
        ensures
            r@.identity == identity@,
            r@.handlers == Seq::<(Seq<u8>, Seq<u8>)>::empty(),
    {
        let r = ComponentInstance { identity, handlers: Vec::new() };
        proof {
            assert(r@.handlers =~= Seq::<(Seq<u8>, Seq<u8>)>::empty());
        }
        r
    }

    /// The instance's identity.
    pub fn identity(&self) -> (r: &Vec<u8>)
        ensures
            r@ == self@.identity,
    {
        &self.identity
    }

    /// The accepted registrations, in order.
    pub fn handlers(&self) -> (r: &Vec<(Vec<u8>, Vec<u8>)>)
        ensures
            pairs_view(r@) == self@.handlers,
    {
        &self.handlers
    }

    /// Registers `handler` under the phase `schedule`; refuses a pair that
    /// is already registered and then leaves the instance unchanged.
    pub fn add_handler(&mut self, schedule: Vec<u8>, handler: Vec<u8>) -> (r: Result<
        (),
        BootstrapError,
    >)
        ensures
            final(self)@.identity == old(self)@.identity,
            match add_handler_spec(old(self)@.handlers, (schedule@, handler@)) {
                Result::Ok(h2) => r is Ok && final(self)@.handlers == h2,
                Result::Err(e) => r == Result::Err::<(), BootstrapError>(e) && final(self)@
                    == old(self)@,
            },
    {
        let ghost p = (schedule@, handler@);
        let mut i: usize = 0;
        while i < self.handlers.len()
            invariant
                i <= self.handlers@.len(),
                forall|k: int| 0 <= k < i ==> #[trigger] pairs_view(self.handlers@)[k] != p,
                self@ == old(self)@,
                p == (schedule@, handler@),
            decreases self.handlers@.len() - i,
        {
            if bytes_eq(self.handlers[i].0.as_slice(), schedule.as_slice()) && bytes_eq(
                self.handlers[i].1.as_slice(),
                handler.as_slice(),
            ) {
                proof {
                    assert(pairs_view(self.handlers@)[i as int] == p);
                    assert(self@.handlers.contains(p));
                }
                return Result::Err(BootstrapError::DuplicateRegistration);
            }
            i += 1;
        }
        proof {
            if self@.handlers.contains(p) {
                let k = choose|k: int| 0 <= k < self@.handlers.len() && self@.handlers[k] == p;
                assert(pairs_view(self.handlers@)[k] != p);
                assert(false);
            }
        }
        let ghost prev = self.handlers@;
        self.handlers.push((schedule, handler));
        proof {
            assert(pairs_view(final(self).handlers@) =~= pairs_view(prev).push(p));
        }
        Result::Ok(())
    }
}

/// What the bootstrap walk does to an instance's handler list, thunk by
/// thunk from index `i` on: each thunk registers its effective handler under
/// its phase; the first refusal stops the walk with that error, keeping the
/// registrations made so far.
pub open spec fn run_thunks(
    hs: Seq<(Seq<u8>, Seq<u8>)>,
    ts: Seq<SpecThunk>,
    i: int,
) -> (Seq<(Seq<u8>, Seq<u8>)>, Option<BootstrapError>)
    decreases ts.len() - i,
{
    if i < 0 || i >= ts.len() {
        (hs, Option::None)
    } else {
        let p = (ts[i].schedule, chain_spec(ts[i].handler, ts[i].transforms));
        if hs.contains(p) {
            (hs, Option::Some(BootstrapError::DuplicateRegistration))
        } else {
            run_thunks(hs.push(p), ts, i + 1)
        }
    }
}

/// The bootstrap walk, run once when a component instance is constructed:
/// looks up the thunks registered for the instance's identity and invokes
/// each in registration order. Returns how many thunks ran; zero matching
/// thunks is legal and registers nothing. A failing invocation is returned
/// at once and the remaining thunks are not invoked.
pub fn bootstrap(registry: &Registry, instance: &mut ComponentInstance) -> (r: Result<
    usize,
    BootstrapError,
>)
    ensures
        final(instance)@.identity == old(instance)@.identity,
        ({
            let ts = matching(registry@, old(instance)@.identity);
            let walk = run_thunks(old(instance)@.handlers, ts, 0);
            final(instance)@.handlers == walk.0 && match r {
                Result::Ok(n) => walk.1 is None && n == ts.len(),
                Result::Err(e) => walk.1 == Option::Some(e),
            }
        }),
{
    let ts = registry.entries_for(instance.identity.as_slice());
    let ghost tsv = matching(registry@, old(instance)@.identity);
    let mut i: usize = 0;
    while i < ts.len()
        invariant
            i <= ts@.len(),
            thunks_view(ts@) == tsv,
            tsv == matching(registry@, old(instance)@.identity),
            instance@.identity == old(instance)@.identity,
            run_thunks(old(instance)@.handlers, tsv, 0) == run_thunks(instance@.handlers, tsv, i as int),
        decreases ts@.len() - i,
    {
        let t = &ts[i];
        let sched = clone_bytes(&t.schedule);
        let eff = effective_handler(t);
        proof {
            assert(tsv[i as int] == ts@[i as int]@);
            assert((sched@, eff@) == (tsv[i as int].schedule, chain_spec(
                tsv[i as int].handler,
                tsv[i as int].transforms,
            )));
        }
        match instance.add_handler(sched, eff) {
            Result::Ok(_) => {
                i += 1;
            },
            Result::Err(e) => {
                proof {
                    assert(tsv.len() == ts@.len());
                    assert(instance@.handlers.contains((sched@, eff@)));
                    assert(run_thunks(instance@.handlers, tsv, i as int) == (
                        instance@.handlers,
                        Option::Some(BootstrapError::DuplicateRegistration),
                    ));
                }
                return Result::Err(e);
            },
        }
    }
    Result::Ok(ts.len())
}

} // verus!
