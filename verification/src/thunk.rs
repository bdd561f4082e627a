//! Generated registration thunks: one per declaration, produced only when
//! the resolved configuration names both an owning component (`plugin`) and
//! an execution phase (`schedule`), carrying the declaration's transforms in
//! order and a stable unique identity.

use vstd::prelude::*;
use crate::bytes::{clone_bytes, copy_range, push_bytes};
use crate::identity::{identity_spec, thunk_identity};
use crate::record::{ConfigRecord, ReservedKey, SpecRecord, extend_pairs, pairs_view};

verus! {

/// Mathematical image of a registration thunk.
#[verifier::ext_equal]
pub ghost struct SpecThunk {
    pub identity: Seq<u8>,
    pub plugin: Seq<u8>,
    pub schedule: Seq<u8>,
    pub handler: Seq<u8>,
    pub transforms: Seq<(Seq<u8>, Seq<u8>)>,
}

/// One registration thunk: invoked with a component instance, it registers
/// the effective handler under `schedule`. Never mutated after generation.
#[derive(Debug)]
pub struct RegistrationThunk {
    /// The generated unique name of the thunk itself.
    pub identity: Vec<u8>,
    /// The owning component the thunk is destined for.
    pub plugin: Vec<u8>,
    /// The execution phase the handler is attached under.
    pub schedule: Vec<u8>,
    /// The declaration's own name.
    pub handler: Vec<u8>,
    /// The transforms to wrap the handler in, in declaration order.
    pub transforms: Vec<(Vec<u8>, Vec<u8>)>,
}

impl View for RegistrationThunk {
    type V = SpecThunk;

    open spec fn view(&self) -> SpecThunk {
        SpecThunk {
            identity: self.identity@,
            plugin: self.plugin@,
            schedule: self.schedule@,
            handler: self.handler@,
            transforms: pairs_view(self.transforms@),
        }
    }
}

/// How generation can fail: a required reserved key is neither declared nor
/// inherited.
#[derive(Clone, Copy, Debug, PartialEq, Eq, Structural)]
pub enum GenError {
    MissingRequiredConfig(ReservedKey),
}

/// What generating a thunk from a resolved record yields: the thunk, or the
/// first reserved key that is still unset. `schedule` is checked first.
pub open spec fn generate_spec(
    rec: SpecRecord,
    handler: Seq<u8>,
    path: Seq<u8>,
    line: u64,
) -> Result<SpecThunk, GenError> {
    if rec.schedule is None {
        Result::Err(GenError::MissingRequiredConfig(ReservedKey::Schedule))
    } else if rec.plugin is None {
        Result::Err(GenError::MissingRequiredConfig(ReservedKey::Plugin))
    } else {
        Result::Ok(
            SpecThunk {
                identity: identity_spec(handler, path, line),
                plugin: rec.plugin->Some_0,
                schedule: rec.schedule->Some_0,
                handler: handler,
                transforms: rec.transforms,
            },
        )
    }
}

/// Generates the registration thunk for the declaration `handler` at
/// `path:line` from its resolved configuration. Fails with
/// `MissingRequiredConfig` exactly when `schedule` or `plugin` is unset
/// after all merging; it never defaults silently.
pub fn generate_thunk(args: &ConfigRecord, handler: &[u8], path: &[u8], line: u64) -> (r: Result<
    RegistrationThunk,
    GenError,
>)
    ensures
        match r {
            Result::Ok(t) => generate_spec(args@, handler@, path@, line) == Result::Ok::<
                SpecThunk,
                GenError,
            >(t@),
            Result::Err(e) => generate_spec(args@, handler@, path@, line) == Result::Err::<
                SpecThunk,
                GenError,
            >(e),
        },
{
    let schedule = match &args.schedule {
        Option::None => {
            return Result::Err(GenError::MissingRequiredConfig(ReservedKey::Schedule));
        },
        Option::Some(v) => clone_bytes(v),
    };
    let plugin = match &args.plugin {
        Option::None => {
            return Result::Err(GenError::MissingRequiredConfig(ReservedKey::Plugin));
        },
        Option::Some(v) => clone_bytes(v),
    };
    let identity = thunk_identity(handler, path, line);
    let handler_name = copy_range(handler, 0, handler.len());
    let mut transforms: Vec<(Vec<u8>, Vec<u8>)> = Vec::new();
    extend_pairs(&mut transforms, &args.transforms);
    let t = RegistrationThunk { identity, plugin, schedule, handler: handler_name, transforms };
    proof {
        assert(handler_name@ =~= handler@);
        assert(pairs_view(Seq::<(Vec<u8>, Vec<u8>)>::empty()) =~= Seq::<(Seq<u8>, Seq<u8>)>::empty());
        assert(t@ =~= generate_spec(args@, handler@, path@, line)->Ok_0);
    }
    Result::Ok(t)
}

/// The effective handler of a thunk: the declaration's handler wrapped by
/// each transform in order, rendered as the chain
/// `handler.name1(value1).name2(value2)...`; with no transforms it is the
/// handler alone.
pub open spec fn chain_spec(handler: Seq<u8>, ts: Seq<(Seq<u8>, Seq<u8>)>) -> Seq<u8>
    decreases ts.len(),
{
    if ts.len() == 0 {
        handler
    } else {
        chain_spec(handler, ts.drop_last()) + seq![46u8] + ts.last().0 + seq![40u8] + ts.last().1
            + seq![41u8]
    }
}

/// Renders the effective handler of `t`.
pub fn effective_handler(t: &RegistrationThunk) -> (r: Vec<u8>)
    ensures
        r@ == chain_spec(t@.handler, t@.transforms),
{
    let mut out = clone_bytes(&t.handler);
    let mut i: usize = 0;
    while i < t.transforms.len()
        invariant
            i <= t.transforms@.len(),
            out@ =~= chain_spec(t@.handler, t@.transforms.subrange(0, i as int)),
        decreases t.transforms@.len() - i,
    {
        out.push(46);
        push_bytes(&mut out, t.transforms[i].0.as_slice());
        out.push(40);
        push_bytes(&mut out, t.transforms[i].1.as_slice());
        out.push(41);
        i += 1;
        proof {
            assert(t@.transforms.subrange(0, i as int).drop_last() =~= t@.transforms.subrange(
                0,
                i - 1,
            ));
            assert(out@ =~= chain_spec(t@.handler, t@.transforms.subrange(0, i as int)));
        }
    }
    proof {
        assert(t@.transforms.subrange(0, t.transforms@.len() as int) =~= t@.transforms);
    }
    out
}

/// A copy of `t` with the same view.
pub fn clone_thunk(t: &RegistrationThunk) -> (r: RegistrationThunk)
    ensures
        r@ == t@,
{
    let mut transforms: Vec<(Vec<u8>, Vec<u8>)> = Vec::new();
    extend_pairs(&mut transforms, &t.transforms);
    let r = RegistrationThunk {
        identity: clone_bytes(&t.identity),
        plugin: clone_bytes(&t.plugin),
        schedule: clone_bytes(&t.schedule),
        handler: clone_bytes(&t.handler),
        transforms,
    };
    proof {
        assert(pairs_view(Seq::<(Vec<u8>, Vec<u8>)>::empty()) =~= Seq::<(Seq<u8>, Seq<u8>)>::empty());
        assert(r@ =~= t@);
    }
    r
}

} // verus!
