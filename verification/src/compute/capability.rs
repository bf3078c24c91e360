//! What a device offers in each mode.

use crate::compute::modes::ModeTable;
use crate::contracts::types::{ComputeMode, ModelDescriptor};
use crate::ident::{utc_now, Timestamp, Uuid};
use vstd::prelude::*;

verus! {

/// What a device offers in one mode.
#[derive(Debug)]
pub struct ModeCapability {
    pub available: bool,
    pub models: Vec<ModelDescriptor>,
    pub tool_ids: Vec<String>,
}

/// What a device offers in every mode.
#[derive(Debug)]
pub struct DeviceCapabilitySnapshot {
    pub device_id: Uuid,
    pub timestamp: Timestamp,
    pub modes: ModeTable<ModeCapability>,
}

/// The models of one mode among a list, in order.
pub open spec fn models_of(mode: ComputeMode, s: Seq<(ComputeMode, ModelDescriptor)>) -> Seq<
    ModelDescriptor,
>
    decreases s.len(),
{
    if s.len() == 0 {
        Seq::empty()
    } else if s.last().0 == mode {
        models_of(mode, s.drop_last()).push(s.last().1)
    } else {
        models_of(mode, s.drop_last())
    }
}

impl ModeCapability {
    /// Whether this reports the models of a mode: available exactly where there
    /// is one, with no tools.
    pub open spec fn reports(self, mode: ComputeMode, s: Seq<(ComputeMode, ModelDescriptor)>) -> bool {
        &&& self.models@ == models_of(mode, s)
        &&& self.available == (models_of(mode, s).len() > 0)
        &&& self.tool_ids@.len() == 0
    }
}

/// A mode in which nothing is offered.
fn nothing_offered() -> (r: ModeCapability)
    ensures
        r.models@.len() == 0,
        r.available == false,
        r.tool_ids@.len() == 0,
{
    ModeCapability { available: false, models: Vec::new(), tool_ids: Vec::new() }
}

/// What a device offers, from the models of its providers. Every mode is
/// present: those with a provider are available and list its models, the others
/// are unavailable.
pub fn build_capability_snapshot(
    device_id: Uuid,
    providers: Vec<(ComputeMode, ModelDescriptor)>,
) -> (r: DeviceCapabilitySnapshot)
    ensures
        r.device_id == device_id,
        r.timestamp.of_clock(),
        forall|m: ComputeMode|
            (#[trigger] r.modes.at(m)) matches Some(c) && c.reports(m, providers@),
{
    let ghost all = providers@;
    let mut modes: ModeTable<ModeCapability> = ModeTable::new();
    modes.set(ComputeMode::OnDevice, nothing_offered());
    modes.set(ComputeMode::MacLan, nothing_offered());
    modes.set(ComputeMode::MacRemote, nothing_offered());
    modes.set(ComputeMode::Hosted, nothing_offered());
    assert(all.take(0) =~= Seq::empty());
    assert forall|m: ComputeMode| (#[trigger] modes.at(m)) matches Some(c) && c.reports(
        m,
        all.take(0),
    ) by {
        assert(modes.at(m)->0.models@ =~= Seq::empty());
    }
    for item in it: providers.into_iter()
        invariant
            it.seq() == all,
            forall|m: ComputeMode|
                (#[trigger] modes.at(m)) matches Some(c) && c.reports(
                    m,
                    all.take(it.index() as int),
                ),
    {
        let ghost before = modes;
        let ghost k = it.index() as int;
        proof {
            assert(item == all[k]);
            assert(all.take(k + 1).drop_last() =~= all.take(k));
            assert(all.take(k + 1).last() == item);
            assert(before.at(item.0) is Some);
        }
        let (mode, descriptor) = item;
        let mut entry = match modes.take(mode) {
            Some(entry) => entry,
            None => nothing_offered(),
        };
        entry.available = true;
        entry.models.push(descriptor);
        modes.set(mode, entry);
        assert forall|m: ComputeMode| (#[trigger] modes.at(m)) matches Some(c) && c.reports(
            m,
            all.take(k + 1),
        ) by {
            assert(before.at(m) matches Some(c) && c.reports(m, all.take(k)));
        }
    }
    assert(all.take(all.len() as int) =~= all);
    DeviceCapabilitySnapshot { device_id, timestamp: utc_now(), modes }
}

/// The models of a mode are all that were listed for it, in order.
pub proof fn law_models_of_a_mode_are_all_of_them(
    mode: ComputeMode,
    s: Seq<(ComputeMode, ModelDescriptor)>,
)
    ensures
        ({
            let mine = s.filter(|p: (ComputeMode, ModelDescriptor)| p.0 == mode);
            models_of(mode, s) == Seq::new(mine.len(), |i: int| mine[i].1)
        }),
    decreases s.len(),
{
    reveal(Seq::filter);
    let of = |p: (ComputeMode, ModelDescriptor)| p.0 == mode;
    if s.len() > 0 {
        law_models_of_a_mode_are_all_of_them(mode, s.drop_last());
    }
    assert(models_of(mode, s) =~= Seq::new(s.filter(of).len(), |i: int| s.filter(of)[i].1));
}

} // verus!
