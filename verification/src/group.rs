//! The build-time registration flow: registering one declaration from its
//! resolved record, and processing a whole group of declarations under a
//! shared default block, outer defaults merged into each declaration's own
//! arguments before generation.

use vstd::prelude::*;
use crate::parse::{ParseError, parse_args, spec_parse};
use crate::record::{ConfigRecord, SpecRecord, splat_spec};
use crate::registry::Registry;
use crate::thunk::{GenError, SpecThunk, generate_spec, generate_thunk};

verus! {

/// One declaration as a group sees it: its name, its own raw argument list,
/// and its source location.
#[derive(Debug)]
pub struct Declaration {
    pub handler: Vec<u8>,
    pub args: Vec<u8>,
    pub path: Vec<u8>,
    pub line: u64,
}

/// Mathematical image of a declaration.
#[verifier::ext_equal]
pub ghost struct SpecDecl {
    pub handler: Seq<u8>,
    pub args: Seq<u8>,
    pub path: Seq<u8>,
    pub line: u64,
}

impl View for Declaration {
    type V = SpecDecl;

    open spec fn view(&self) -> SpecDecl {
        SpecDecl { handler: self.handler@, args: self.args@, path: self.path@, line: self.line }
    }
}

/// The view of a sequence of declarations.
pub open spec fn decls_view(s: Seq<Declaration>) -> Seq<SpecDecl> {
    s.map_values(|d: Declaration| d@)
}

/// How processing a group fails: always at build time, naming the offending
/// declaration's position.
#[derive(Clone, Copy, Debug, PartialEq, Eq, Structural)]
pub enum GroupError {
    /// The group's own default arguments do not parse.
    Defaults(ParseError),
    /// The argument list of the declaration at this position does not parse.
    DeclArgs(usize, ParseError),
    /// The declaration at this position still lacks `schedule` or `plugin`
    /// after merging.
    DeclConfig(usize, GenError),
}

/// Generates the thunk for one declaration from its resolved record and
/// appends it to the registry; on failure the registry is untouched.
pub fn register_declaration(
    registry: &mut Registry,
    args: &ConfigRecord,
    handler: &[u8],
    path: &[u8],
    line: u64,
) -> (r: Result<(), GenError>)
    ensures
        match generate_spec(args@, handler@, path@, line) {
            Result::Ok(t) => r is Ok && final(registry)@ == old(registry)@.push(t),
            Result::Err(e) => r == Result::Err::<(), GenError>(e) && final(registry)@ == old(
                registry,
            )@,
        },
{
    match generate_thunk(args, handler, path, line) {
        Result::Ok(t) => {
            registry.submit(t);
            Result::Ok(())
        },
        Result::Err(e) => Result::Err(e),
    }
}

/// What processing the declarations from index `i` on does to the registry:
/// each one's arguments are parsed, merged under the group's defaults, and
/// generated; the first failure stops the walk, keeping what was registered
/// before it.
pub open spec fn group_from(
    reg: Seq<SpecThunk>,
    defaults: SpecRecord,
    ds: Seq<SpecDecl>,
    i: int,
) -> (Seq<SpecThunk>, Option<GroupError>)
    decreases ds.len() - i,
{
    if i < 0 || i >= ds.len() {
        (reg, Option::None)
    } else {
        match spec_parse(ds[i].args) {
            Result::Err(e) => (reg, Option::Some(GroupError::DeclArgs(i as usize, e))),
            Result::Ok(inner) => {
                let merged = splat_spec(defaults, inner);
                match generate_spec(merged, ds[i].handler, ds[i].path, ds[i].line) {
                    Result::Err(e) => (reg, Option::Some(GroupError::DeclConfig(i as usize, e))),
                    Result::Ok(t) => group_from(reg.push(t), defaults, ds, i + 1),
                }
            },
        }
    }
}

/// What processing a whole group does: parse the default block, then walk
/// the declarations from the first.
pub open spec fn process_group_spec(
    reg: Seq<SpecThunk>,
    defaults_src: Seq<u8>,
    ds: Seq<SpecDecl>,
) -> (Seq<SpecThunk>, Option<GroupError>) {
    match spec_parse(defaults_src) {
        Result::Err(e) => (reg, Option::Some(GroupError::Defaults(e))),
        Result::Ok(defs) => group_from(reg, defs, ds, 0),
    }
}

/// Processes a group of declarations under one default block: parses the
/// defaults, then, declaration by declaration in order, parses its
/// arguments, merges the defaults into them (the declaration's own values
/// win), generates its thunk and registers it. The first failure is
/// returned with the declaration's position; thunks registered before it
/// stay. Returns how many declarations were registered.
pub fn process_group(registry: &mut Registry, defaults_src: &[u8], decls: &Vec<Declaration>) -> (r:
    Result<usize, GroupError>)
    ensures
        ({
            let outcome = process_group_spec(old(registry)@, defaults_src@, decls_view(decls@));
            final(registry)@ == outcome.0 && match r {
                Result::Ok(n) => outcome.1 is None && n == decls@.len(),
                Result::Err(e) => outcome.1 == Option::Some(e),
            }
        }),
{
    let defaults = match parse_args(defaults_src) {
        Result::Err(e) => {
            return Result::Err(GroupError::Defaults(e));
        },
        Result::Ok(d) => d,
    };
    let ghost defs = defaults@;
    let ghost dsv = decls_view(decls@);
    let mut i: usize = 0;
    while i < decls.len()
        invariant
            i <= decls@.len(),
            spec_parse(defaults_src@) == Result::Ok::<SpecRecord, ParseError>(defs),
            defaults@ == defs,
            dsv == decls_view(decls@),
            group_from(old(registry)@, defs, dsv, 0) == group_from(registry@, defs, dsv, i as int),
        decreases decls@.len() - i,
    {
        let d = &decls[i];
        proof {
            assert(dsv[i as int] == decls@[i as int]@);
        }
        let inner = match parse_args(d.args.as_slice()) {
            Result::Err(e) => {
                proof {
                    assert(group_from(registry@, defs, dsv, i as int) == (
                        registry@,
                        Option::Some(GroupError::DeclArgs(i, e)),
                    ));
                }
                return Result::Err(GroupError::DeclArgs(i, e));
            },
            Result::Ok(rec) => rec,
        };
        let merged = defaults.splat(&inner);
        match register_declaration(registry, &merged, d.handler.as_slice(), d.path.as_slice(), d.line) {
            Result::Err(e) => {
                proof {
                    assert(group_from(registry@, defs, dsv, i as int) == (
                        registry@,
                        Option::Some(GroupError::DeclConfig(i, e)),
                    ));
                }
                return Result::Err(GroupError::DeclConfig(i, e));
            },
            Result::Ok(_) => {
                i += 1;
            },
        }
    }
    Result::Ok(decls.len())
}

} // verus!
