//! A value for each compute mode.

use crate::contracts::types::ComputeMode;
use vstd::prelude::*;

verus! {

/// Modes from the most to the least preferred: the paired Mac first, the device
/// itself as the last resort.
pub open spec fn preference_order() -> Seq<ComputeMode> {
    seq![
        ComputeMode::MacLan,
        ComputeMode::MacRemote,
        ComputeMode::Hosted,
        ComputeMode::OnDevice,
    ]
}

/// The mode at a position of the preference order.
pub fn preferred(i: usize) -> (r: ComputeMode)
    requires
        i < 4,
    ensures
        r == preference_order()[i as int],
{
    if i == 0 {
        ComputeMode::MacLan
    } else if i == 1 {
        ComputeMode::MacRemote
    } else if i == 2 {
        ComputeMode::Hosted
    } else {
        ComputeMode::OnDevice
    }
}

/// At most one value for each mode.
#[derive(Debug)]
pub struct ModeTable<T> {
    on_device: Option<T>,
    mac_lan: Option<T>,
    mac_remote: Option<T>,
    hosted: Option<T>,
}

impl<T> ModeTable<T> {
    /// The value for a mode.
    pub closed spec fn at(&self, mode: ComputeMode) -> Option<T> {
        match mode {
            ComputeMode::OnDevice => self.on_device,
            ComputeMode::MacLan => self.mac_lan,
            ComputeMode::MacRemote => self.mac_remote,
            ComputeMode::Hosted => self.hosted,
        }
    }

    /// A table without values.
    pub fn new() -> (r: ModeTable<T>)
        ensures
            forall|m: ComputeMode| #[trigger] r.at(m) is None,
    {
        ModeTable { on_device: None, mac_lan: None, mac_remote: None, hosted: None }
    }

    /// The value for a mode.
    pub fn get(&self, mode: ComputeMode) -> (r: Option<&T>)
        ensures
            match r {
                Some(v) => self.at(mode) == Some(*v),
                None => self.at(mode) is None,
            },
    {
        match mode {
            ComputeMode::OnDevice => self.on_device.as_ref(),
            ComputeMode::MacLan => self.mac_lan.as_ref(),
            ComputeMode::MacRemote => self.mac_remote.as_ref(),
            ComputeMode::Hosted => self.hosted.as_ref(),
        }
    }

    /// Sets the value for a mode; an earlier one is replaced.
    pub fn set(&mut self, mode: ComputeMode, value: T)
        ensures
            forall|m: ComputeMode|
                #[trigger] final(self).at(m) == (if m == mode {
                    Some(value)
                } else {
                    old(self).at(m)
                }),
    {
        match mode {
            ComputeMode::OnDevice => {
                self.on_device = Some(value);
            },
            ComputeMode::MacLan => {
                self.mac_lan = Some(value);
            },
            ComputeMode::MacRemote => {
                self.mac_remote = Some(value);
            },
            ComputeMode::Hosted => {
                self.hosted = Some(value);
            },
        }
    }

    /// Takes the value for a mode out.
    pub fn take(&mut self, mode: ComputeMode) -> (r: Option<T>)
        ensures
            r == old(self).at(mode),
            forall|m: ComputeMode|
                #[trigger] final(self).at(m) == (if m == mode {
                    None
                } else {
                    old(self).at(m)
                }),
    {
        match mode {
            ComputeMode::OnDevice => self.on_device.take(),
            ComputeMode::MacLan => self.mac_lan.take(),
            ComputeMode::MacRemote => self.mac_remote.take(),
            ComputeMode::Hosted => self.hosted.take(),
        }
    }
}

/// Every mode stands in the preference order, once.
pub proof fn law_preference_order_is_complete(m: ComputeMode)
    ensures
        exists|i: int| 0 <= i < preference_order().len() && preference_order()[i] == m,
        forall|i: int, j: int|
            0 <= i < j < preference_order().len() ==> preference_order()[i]
                != preference_order()[j],
{
    match m {
        ComputeMode::MacLan => {
            assert(preference_order()[0] == m);
        },
        ComputeMode::MacRemote => {
            assert(preference_order()[1] == m);
        },
        ComputeMode::Hosted => {
            assert(preference_order()[2] == m);
        },
        ComputeMode::OnDevice => {
            assert(preference_order()[3] == m);
        },
    }
}

} // verus!
