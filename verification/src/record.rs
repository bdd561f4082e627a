//! Configuration records: one declaration's resolved arguments, and the
//! top-down default merge (`splat`) that combines a group's defaults with a
//! single declaration's own arguments.

use vstd::prelude::*;
use crate::bytes::{clone_bytes, push_bytes};
use crate::parse::{kw_plugin, kw_schedule};

verus! {

/// Which of the two reserved argument names is meant.
#[derive(Clone, Copy, Debug, PartialEq, Eq, Structural)]
pub enum ReservedKey {
    Schedule,
    Plugin,
}

/// Mathematical image of a configuration record: an optional owning-component
/// reference, an optional execution-phase reference, and the ordered transform
/// list, all as byte strings.
#[verifier::ext_equal]
pub ghost struct SpecRecord {
    pub plugin: Option<Seq<u8>>,
    pub schedule: Option<Seq<u8>>,
    pub transforms: Seq<(Seq<u8>, Seq<u8>)>,
}

/// One declaration's resolved arguments. `plugin` names the owning component,
/// `schedule` the execution phase; either may be unset, meaning "inherit".
/// `transforms` holds the remaining `name = value` pairs in declaration order.
#[derive(Debug)]
pub struct ConfigRecord {
    pub plugin: Option<Vec<u8>>,
    pub schedule: Option<Vec<u8>>,
    pub transforms: Vec<(Vec<u8>, Vec<u8>)>,
}

/// The view of a sequence of byte-string pairs.
pub open spec fn pairs_view(s: Seq<(Vec<u8>, Vec<u8>)>) -> Seq<(Seq<u8>, Seq<u8>)> {
    s.map_values(|p: (Vec<u8>, Vec<u8>)| (p.0@, p.1@))
}

/// The view of an optional byte string.
pub open spec fn opt_bytes_view(o: Option<Vec<u8>>) -> Option<Seq<u8>> {
    match o {
        Option::Some(v) => Option::Some(v@),
        Option::None => Option::None,
    }
}

impl View for ConfigRecord {
    type V = SpecRecord;

    open spec fn view(&self) -> SpecRecord {
        SpecRecord {
            plugin: opt_bytes_view(self.plugin),
            schedule: opt_bytes_view(self.schedule),
            transforms: pairs_view(self.transforms@),
        }
    }
}

/// The merge rule on records: the inner (more specific) value of a scalar
/// field wins when set, the outer value is the fallback; the transform lists
/// concatenate, outer first.
pub open spec fn splat_spec(outer: SpecRecord, inner: SpecRecord) -> SpecRecord {
    SpecRecord {
        plugin: if inner.plugin is Some {
            inner.plugin
        } else {
            outer.plugin
        },
        schedule: if inner.schedule is Some {
            inner.schedule
        } else {
            outer.schedule
        },
        transforms: outer.transforms + inner.transforms,
    }
}

/// The record with nothing set: everything is inherited.
pub open spec fn empty_record() -> SpecRecord {
    SpecRecord { plugin: Option::None, schedule: Option::None, transforms: Seq::empty() }
}

/// A copy of an optional byte string with the same view.
fn clone_opt_bytes(o: &Option<Vec<u8>>) -> (r: Option<Vec<u8>>)
    ensures
        opt_bytes_view(r) == opt_bytes_view(*o),
{
    match o {
        Option::Some(v) => Option::Some(clone_bytes(v)),
        Option::None => Option::None,
    }
}

/// Appends copies of the pairs of `src` to `out`.
pub(crate) fn extend_pairs(out: &mut Vec<(Vec<u8>, Vec<u8>)>, src: &Vec<(Vec<u8>, Vec<u8>)>)
    ensures
        pairs_view(final(out)@) == pairs_view(old(out)@) + pairs_view(src@),
{
    let mut i: usize = 0;
    while i < src.len()
        invariant
            i <= src@.len(),
            pairs_view(out@) =~= pairs_view(old(out)@) + pairs_view(src@.subrange(0, i as int)),
        decreases src@.len() - i,
    {
        let name = clone_bytes(&src[i].0);
        let value = clone_bytes(&src[i].1);
        let ghost prev = out@;
        out.push((name, value));
        i += 1;
        proof {
            assert(pairs_view(out@) =~= pairs_view(prev).push((src@[i - 1].0@, src@[i - 1].1@)));
            assert(pairs_view(src@.subrange(0, i as int)) =~= pairs_view(
                src@.subrange(0, i - 1),
            ).push((src@[i - 1].0@, src@[i - 1].1@)));
            assert(pairs_view(out@) =~= pairs_view(old(out)@) + pairs_view(
                src@.subrange(0, i as int),
            ));
        }
    }
    proof {
        assert(src@.subrange(0, src@.len() as int) =~= src@);
        assert(pairs_view(final(out)@) =~= pairs_view(old(out)@) + pairs_view(src@));
    }
}

impl ConfigRecord {
    /// A record with nothing set.
    pub fn new() -> (r: ConfigRecord)
        ensures
            r@ == empty_record(),
    {
        let r = ConfigRecord { plugin: Option::None, schedule: Option::None, transforms: Vec::new() };
        proof {
            assert(r@ =~= empty_record());
        }
        r
    }

    /// Merges `self`, the outer defaults of a group, with `inner`, one
    /// declaration's own arguments. The inner value of `plugin` and
    /// `schedule` wins when set; transform lists concatenate, outer first.
    pub fn splat(&self, inner: &ConfigRecord) -> (r: ConfigRecord)
        ensures
            r@ == splat_spec(self@, inner@),
            r@.transforms == self@.transforms + inner@.transforms,
            inner@.plugin is Some ==> r@.plugin == inner@.plugin,
            inner@.plugin is None ==> r@.plugin == self@.plugin,
            inner@.schedule is Some ==> r@.schedule == inner@.schedule,
            inner@.schedule is None ==> r@.schedule == self@.schedule,
    {
        let plugin = match &inner.plugin {
            Option::Some(v) => Option::Some(clone_bytes(v)),
            Option::None => clone_opt_bytes(&self.plugin),
        };
        let schedule = match &inner.schedule {
            Option::Some(v) => Option::Some(clone_bytes(v)),
            Option::None => clone_opt_bytes(&self.schedule),
        };
        let mut transforms: Vec<(Vec<u8>, Vec<u8>)> = Vec::new();
        extend_pairs(&mut transforms, &self.transforms);
        extend_pairs(&mut transforms, &inner.transforms);
        let r = ConfigRecord { plugin, schedule, transforms };
        proof {
            assert(pairs_view(Seq::<(Vec<u8>, Vec<u8>)>::empty()) =~= Seq::<(
                Seq<u8>,
                Seq<u8>,
            )>::empty());
            assert(r@ =~= splat_spec(self@, inner@));
        }
        r
    }
}

/// The rendering of one optional `plugin` field: `plugin = value, ` when
/// set, nothing when unset.
pub open spec fn render_plugin(o: Option<Seq<u8>>) -> Seq<u8> {
    match o {
        Option::Some(v) => kw_plugin() + seq![32u8, 61, 32] + v + seq![44u8, 32],
        Option::None => Seq::empty(),
    }
}

/// The rendering of one optional `schedule` field: `schedule = value, ` when
/// set, nothing when unset.
pub open spec fn render_schedule(o: Option<Seq<u8>>) -> Seq<u8> {
    match o {
        Option::Some(v) => kw_schedule() + seq![32u8, 61, 32] + v + seq![44u8, 32],
        Option::None => Seq::empty(),
    }
}

/// The rendering of the transform pairs, each as `name = value, `, in order.
pub open spec fn render_transforms(ts: Seq<(Seq<u8>, Seq<u8>)>) -> Seq<u8>
    decreases ts.len(),
{
    if ts.len() == 0 {
        Seq::empty()
    } else {
        render_transforms(ts.drop_last()) + ts.last().0 + seq![32u8, 61, 32] + ts.last().1 + seq![
            44u8,
            32,
        ]
    }
}

/// The argument-list rendering of a record: `plugin` first, then
/// `schedule`, then the transforms in order, each pair as `name = value, `.
pub open spec fn render_spec(r: SpecRecord) -> Seq<u8> {
    render_plugin(r.plugin) + render_schedule(r.schedule) + render_transforms(r.transforms)
}

/// Renders a record back into the textual argument-list form the parser
/// reads, `plugin` and `schedule` first, the transforms in order.
pub fn render_args(rec: &ConfigRecord) -> (r: Vec<u8>)
    ensures
        r@ == render_spec(rec@),
{
    let mut out: Vec<u8> = Vec::new();
    if let Option::Some(v) = &rec.plugin {
        out.push(112);
        out.push(108);
        out.push(117);
        out.push(103);
        out.push(105);
        out.push(110);
        out.push(32);
        out.push(61);
        out.push(32);
        push_bytes(&mut out, v.as_slice());
        out.push(44);
        out.push(32);
    }
    proof {
        assert(out@ =~= render_plugin(rec@.plugin));
    }
    let ghost head1 = out@;
    if let Option::Some(v) = &rec.schedule {
        out.push(115);
        out.push(99);
        out.push(104);
        out.push(101);
        out.push(100);
        out.push(117);
        out.push(108);
        out.push(101);
        out.push(32);
        out.push(61);
        out.push(32);
        push_bytes(&mut out, v.as_slice());
        out.push(44);
        out.push(32);
    }
    proof {
        assert(out@ =~= render_plugin(rec@.plugin) + render_schedule(rec@.schedule));
    }
    let ghost head = out@;
    let mut i: usize = 0;
    while i < rec.transforms.len()
        invariant
            i <= rec.transforms@.len(),
            head == render_plugin(rec@.plugin) + render_schedule(rec@.schedule),
            out@ =~= head + render_transforms(rec@.transforms.subrange(0, i as int)),
        decreases rec.transforms@.len() - i,
    {
        push_bytes(&mut out, rec.transforms[i].0.as_slice());
        out.push(32);
        out.push(61);
        out.push(32);
        push_bytes(&mut out, rec.transforms[i].1.as_slice());
        out.push(44);
        out.push(32);
        i += 1;
        proof {
            assert(rec@.transforms.subrange(0, i as int).drop_last() =~= rec@.transforms.subrange(
                0,
                i - 1,
            ));
            assert(out@ =~= head + render_transforms(rec@.transforms.subrange(0, i as int)));
        }
    }
    proof {
        assert(rec@.transforms.subrange(0, rec.transforms@.len() as int) =~= rec@.transforms);
        assert(out@ =~= render_spec(rec@));
    }
    out
}

/// The merge is associative: merging a nested group outermost-first, pair by
/// pair, gives one record, no matter how the pairs are grouped.
pub proof fn lemma_splat_associative(a: SpecRecord, b: SpecRecord, c: SpecRecord)
    ensures
        splat_spec(splat_spec(a, b), c) == splat_spec(a, splat_spec(b, c)),
{
    assert(splat_spec(splat_spec(a, b), c) =~= splat_spec(a, splat_spec(b, c)));
}

/// Merging the empty record on either side changes nothing.
pub proof fn lemma_splat_empty(r: SpecRecord)
    ensures
        splat_spec(empty_record(), r) == r,
        splat_spec(r, empty_record()) == r,
{
    assert(splat_spec(empty_record(), r) =~= r);
    assert(splat_spec(r, empty_record()) =~= r);
}

} // verus!
