//! The configuration snapshot a machine pins at creation time.

use vstd::prelude::*;

use crate::triplet::{Triplet, TripletView};

verus! {

/// Static launch parameters for one machine class.
#[derive(Clone, Copy, Debug, PartialEq, Eq, Structural)]
pub struct MachineConfig {
    /// The amount of RAM (in bytes) one machine of this class consumes while
    /// it is launched.
    pub ram_bytes: u64,
}

/// One entry of a configuration snapshot: a machine class, addressed by its
/// identity key.
pub struct ConfigEntry {
    pub triplet: Triplet,
    pub machine_config: MachineConfig,
}

/// An immutable configuration snapshot.
///
/// A reload produces a fresh snapshot; machines created under an older one
/// keep using it for their whole life.
pub struct ConfigFile {
    entries: Vec<ConfigEntry>,
}

impl View for ConfigEntry {
    type V = (TripletView, MachineConfig);

    closed spec fn view(&self) -> (TripletView, MachineConfig) {
        (self.triplet@, self.machine_config)
    }
}

impl View for ConfigFile {
    type V = Seq<(TripletView, MachineConfig)>;

    closed spec fn view(&self) -> Seq<(TripletView, MachineConfig)> {
        self.entries@.map_values(|e: ConfigEntry| e@)
    }
}

/// The machine class `entries` gives to the identity `t`: the first entry
/// whose key matches, or `None` when no entry does.
pub open spec fn lookup_spec(
    entries: Seq<(TripletView, MachineConfig)>,
    t: TripletView,
) -> Option<MachineConfig>
    decreases entries.len(),
{
    if entries.len() == 0 {
        None
    } else if entries[0].0 == t {
        Some(entries[0].1)
    } else {
        lookup_spec(entries.skip(1), t)
    }
}

impl Clone for ConfigEntry {
    fn clone(&self) -> (r: Self)
        ensures
            r@ == self@,
    {
        ConfigEntry { triplet: self.triplet.clone(), machine_config: self.machine_config }
    }
}

impl Clone for ConfigFile {
    fn clone(&self) -> (r: Self)
        ensures
            r@ == self@,
    {
        let mut entries: Vec<ConfigEntry> = Vec::new();
        let mut i: usize = 0;
        while i < self.entries.len()
            invariant
                i <= self.entries.len(),
                entries@.len() == i,
                forall|j: int| 0 <= j < i ==> entries@[j]@ == #[trigger] self.entries@[j]@,
            decreases self.entries.len() - i,
        {
            entries.push(self.entries[i].clone());
            i = i + 1;
        }
        let r = ConfigFile { entries };
        proof {
            assert(r@ =~= self@);
        }
        r
    }
}

impl ConfigFile {
    /// An empty snapshot: no machine class is known.
    pub fn new() -> (r: ConfigFile)
        ensures
            r@ == Seq::<(TripletView, MachineConfig)>::empty(),
    {
        let r = ConfigFile { entries: Vec::new() };
        proof {
            assert(r@ =~= Seq::<(TripletView, MachineConfig)>::empty());
        }
        r
    }

    /// Add one machine class to the snapshot. When the key is already
    /// present, the earlier entry keeps precedence.
    pub fn insert(&mut self, triplet: Triplet, machine_config: MachineConfig)
        ensures
            final(self)@ == old(self)@.push((triplet@, machine_config)),
    {
        let ghost old_view = self@;
        self.entries.push(ConfigEntry { triplet, machine_config });
        proof {
            assert(self@ =~= old_view.push(self.entries@.last()@));
        }
    }

    /// Look the identity `t` up in the snapshot.
    pub fn lookup(&self, t: &Triplet) -> (r: Option<MachineConfig>)
        ensures
            r == lookup_spec(self@, t@),
    {
        let mut i: usize = 0;
        proof {
            assert(self@.skip(0) =~= self@);
        }
        while i < self.entries.len()
            invariant
                i <= self.entries.len(),
                lookup_spec(self@, t@) == lookup_spec(self@.skip(i as int), t@),
            decreases self.entries.len() - i,
        {
            if self.entries[i].triplet == *t {
                proof {
                    assert(self@.skip(i as int)[0] == self@[i as int]);
                }
                return Some(self.entries[i].machine_config);
            }
            proof {
                assert(self@.skip(i as int)[0] == self@[i as int]);
                assert(self@.skip(i as int).skip(1) =~= self@.skip(i + 1));
            }
            i = i + 1;
        }
        proof {
            assert(self@.skip(i as int).len() == 0);
        }
        None
    }
}

} // verus!
