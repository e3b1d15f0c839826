//! The registry of active source devices.
//!
//! Devices are indexed twice: by the descriptor of their node, which owns
//! them, and by their role name, which refers back to the descriptor. The
//! two indexes always describe the same set of devices.

use vstd::prelude::*;
use std::collections::HashMap;
use crate::error::{fails_with, Error};
use crate::event::Modifier;
use crate::srcdev::{SourceDevice, SourceState};

verus! {

broadcast use vstd::std_specs::hash::group_hash_axioms;

/// Mathematical value of the registry: its two indexes.
pub struct RegistryState {
    /// The device registered under each descriptor.
    pub by_fd: Map<i32, SourceState>,
    /// The descriptor registered under each role name.
    pub by_id: Map<Seq<char>, i32>,
}

impl RegistryState {
    /// The registry without devices.
    pub open spec fn empty() -> Self {
        RegistryState { by_fd: Map::empty(), by_id: Map::empty() }
    }

    /// The two indexes are consistent: every device is stored under its own
    /// descriptor, every descriptor's device is found under its name, and
    /// every name leads to a registered descriptor whose device has that
    /// name.
    pub open spec fn wf(self) -> bool {
        &&& self.by_fd.dom().finite()
        &&& forall|fd: i32| #[trigger]
            self.by_fd.contains_key(fd) ==> {
                &&& self.by_fd[fd].fd == fd
                &&& self.by_id.contains_key(self.by_fd[fd].id)
                &&& self.by_id[self.by_fd[fd].id] == fd
            }
        &&& forall|id: Seq<char>| #[trigger]
            self.by_id.contains_key(id) ==> {
                &&& self.by_fd.contains_key(self.by_id[id])
                &&& self.by_fd[self.by_id[id]].id == id
            }
    }

    /// Whether `dev` can join: neither its descriptor nor its name is taken.
    pub open spec fn admits(self, dev: SourceState) -> bool {
        !self.by_fd.contains_key(dev.fd) && !self.by_id.contains_key(dev.id)
    }

    /// Registering `dev`: it enters both indexes, unless its descriptor or
    /// its name is taken, in which case nothing changes.
    pub open spec fn push(self, dev: SourceState) -> Self {
        if self.admits(dev) {
            RegistryState {
                by_fd: self.by_fd.insert(dev.fd, dev),
                by_id: self.by_id.insert(dev.id, dev.fd),
            }
        } else {
            self
        }
    }

    /// Removing the device under `fd`: it leaves both indexes; an unknown
    /// descriptor changes nothing.
    pub open spec fn remove_by_fd(self, fd: i32) -> Self {
        if self.by_fd.contains_key(fd) {
            RegistryState {
                by_fd: self.by_fd.remove(fd),
                by_id: self.by_id.remove(self.by_fd[fd].id),
            }
        } else {
            self
        }
    }

    /// The device with role name `id`, if one is registered.
    pub open spec fn device(self, id: Seq<char>) -> Option<SourceState> {
        if self.by_id.contains_key(id) {
            Some(self.by_fd[self.by_id[id]])
        } else {
            None
        }
    }

    /// Whether `modf` holds: of the device named by `device`, where a
    /// missing device and an unknown state count as false; or, with no name
    /// given, of at least one registered device.
    pub open spec fn test_modifier(self, device: Option<Seq<char>>, modf: Modifier) -> bool {
        match device {
            Some(id) => self.by_id.contains_key(id) && self.by_fd[self.by_id[id]].match_modifier(
                modf,
            ) == Some(true),
            None => exists|fd: i32| #[trigger]
                self.by_fd.contains_key(fd) && self.by_fd[fd].match_modifier(modf) == Some(true),
        }
    }
}

/// One change to the registry.
pub enum RegistryOp {
    Push(SourceState),
    RemoveByFd(i32),
}

/// The registry after `ops` were applied to `state` in order.
pub open spec fn apply_ops(state: RegistryState, ops: Seq<RegistryOp>) -> RegistryState
    decreases ops.len(),
{
    if ops.len() == 0 {
        state
    } else {
        let earlier = apply_ops(state, ops.drop_last());
        match ops.last() {
            RegistryOp::Push(dev) => earlier.push(dev),
            RegistryOp::RemoveByFd(fd) => earlier.remove_by_fd(fd),
        }
    }
}

/// Registering a device keeps the two indexes consistent.
pub proof fn lemma_push_keeps_consistency(state: RegistryState, dev: SourceState)
    requires
        state.wf(),
    ensures
        state.push(dev).wf(),
{
    if state.admits(dev) {
        let after = state.push(dev);
        assert forall|fd: i32| #[trigger] after.by_fd.contains_key(fd) implies {
            &&& after.by_fd[fd].fd == fd
            &&& after.by_id.contains_key(after.by_fd[fd].id)
            &&& after.by_id[after.by_fd[fd].id] == fd
        } by {
            if fd != dev.fd {
                assert(state.by_fd.contains_key(fd));
            }
        }
        assert forall|id: Seq<char>| #[trigger] after.by_id.contains_key(id) implies {
            &&& after.by_fd.contains_key(after.by_id[id])
            &&& after.by_fd[after.by_id[id]].id == id
        } by {
            if id != dev.id {
                assert(state.by_id.contains_key(id));
            }
        }
    }
}

/// Removing a device keeps the two indexes consistent.
pub proof fn lemma_remove_keeps_consistency(state: RegistryState, fd: i32)
    requires
        state.wf(),
    ensures
        state.remove_by_fd(fd).wf(),
{
    if state.by_fd.contains_key(fd) {
        let after = state.remove_by_fd(fd);
        assert forall|other: i32| #[trigger] after.by_fd.contains_key(other) implies {
            &&& after.by_fd[other].fd == other
            &&& after.by_id.contains_key(after.by_fd[other].id)
            &&& after.by_id[after.by_fd[other].id] == other
        } by {
            assert(state.by_fd.contains_key(other));
        }
        assert forall|id: Seq<char>| #[trigger] after.by_id.contains_key(id) implies {
            &&& after.by_fd.contains_key(after.by_id[id])
            &&& after.by_fd[after.by_id[id]].id == id
        } by {
            assert(state.by_id.contains_key(id));
        }
    }
}

/// Replacing a device by one with the same descriptor and name keeps the
/// two indexes consistent.
pub proof fn lemma_update_keeps_consistency(state: RegistryState, dev: SourceState)
    requires
        state.wf(),
        state.by_fd.contains_key(dev.fd),
        state.by_fd[dev.fd].id == dev.id,
    ensures
        (RegistryState { by_fd: state.by_fd.insert(dev.fd, dev), ..state }).wf(),
{
    let after = RegistryState { by_fd: state.by_fd.insert(dev.fd, dev), ..state };
    assert(after.by_fd.dom() =~= state.by_fd.dom());
    assert forall|fd: i32| #[trigger] after.by_fd.contains_key(fd) implies {
        &&& after.by_fd[fd].fd == fd
        &&& after.by_id.contains_key(after.by_fd[fd].id)
        &&& after.by_id[after.by_fd[fd].id] == fd
    } by {
        assert(state.by_fd.contains_key(fd));
    }
    assert forall|id: Seq<char>| #[trigger] after.by_id.contains_key(id) implies {
        &&& after.by_fd.contains_key(after.by_id[id])
        &&& after.by_fd[after.by_id[id]].id == id
    } by {
        assert(state.by_id.contains_key(id));
    }
}

/// Registry consistency: after any sequence of registrations and removals,
/// starting from a consistent registry, every name in the name index leads
/// to a device whose descriptor is in the descriptor index, and every
/// descriptor there leads to a device whose name is in the name index.
pub proof fn lemma_registry_consistency(state: RegistryState, ops: Seq<RegistryOp>)
    requires
        state.wf(),
    ensures
        apply_ops(state, ops).wf(),
    decreases ops.len(),
{
    if ops.len() > 0 {
        lemma_registry_consistency(state, ops.drop_last());
        let earlier = apply_ops(state, ops.drop_last());
        match ops.last() {
            RegistryOp::Push(dev) => lemma_push_keeps_consistency(earlier, dev),
            RegistryOp::RemoveByFd(fd) => lemma_remove_keeps_consistency(earlier, fd),
        }
    }
}

/// One entry of the name index: a role name and the descriptor it refers to.
struct IdEntry {
    id: String,
    fd: i32,
}

spec fn ids_distinct(entries: Seq<IdEntry>) -> bool {
    forall|i: int, j: int|
        0 <= i < j < entries.len() ==> (#[trigger] entries[i]).id@ != (#[trigger] entries[j]).id@
}

spec fn has_id(entries: Seq<IdEntry>, id: Seq<char>) -> bool {
    exists|i: int| 0 <= i < entries.len() && (#[trigger] entries[i]).id@ == id
}

spec fn index_of_id(entries: Seq<IdEntry>, id: Seq<char>) -> int {
    choose|i: int| 0 <= i < entries.len() && (#[trigger] entries[i]).id@ == id
}

spec fn id_map(entries: Seq<IdEntry>) -> Map<Seq<char>, i32> {
    Map::new(
        |id: Seq<char>| has_id(entries, id),
        |id: Seq<char>| entries[index_of_id(entries, id)].fd,
    )
}

proof fn lemma_id_map_at(entries: Seq<IdEntry>, i: int)
    requires
        ids_distinct(entries),
        0 <= i < entries.len(),
    ensures
        id_map(entries).contains_key(entries[i].id@),
        id_map(entries)[entries[i].id@] == entries[i].fd,
{
    let id = entries[i].id@;
    assert(has_id(entries, id));
    let j = index_of_id(entries, id);
    assert(0 <= j < entries.len() && entries[j].id@ == id);
    if i < j {
        assert(entries[i].id@ != entries[j].id@);
    } else if j < i {
        assert(entries[j].id@ != entries[i].id@);
    }
}

proof fn lemma_id_map_push(entries: Seq<IdEntry>, entry: IdEntry)
    requires
        ids_distinct(entries),
        !has_id(entries, entry.id@),
    ensures
        ids_distinct(entries.push(entry)),
        id_map(entries.push(entry)) == id_map(entries).insert(entry.id@, entry.fd),
{
    let after = entries.push(entry);
    assert forall|i: int, j: int| 0 <= i < j < after.len() implies (#[trigger] after[i]).id@ != (
    #[trigger] after[j]).id@ by {
        if j == entries.len() {
            assert(entries[i].id@ != entry.id@);
        } else {
            assert(entries[i].id@ != entries[j].id@);
        }
    }
    assert forall|id: Seq<char>| #[trigger]
        id_map(after).contains_key(id) <==> id_map(entries).insert(
            entry.id@,
            entry.fd,
        ).contains_key(id) by {
        if has_id(after, id) {
            let i = index_of_id(after, id);
            if i < entries.len() {
                assert(entries[i].id@ == id);
            }
        }
        if has_id(entries, id) {
            let i = index_of_id(entries, id);
            assert(after[i].id@ == id);
        }
        if id == entry.id@ {
            assert(after[entries.len() as int].id@ == id);
        }
    }
    assert forall|id: Seq<char>| #[trigger] id_map(after).contains_key(id) implies id_map(
        after,
    )[id] == id_map(entries).insert(entry.id@, entry.fd)[id] by {
        let i = index_of_id(after, id);
        lemma_id_map_at(after, i);
        if i < entries.len() {
            assert(entries[i].id@ == id);
            lemma_id_map_at(entries, i);
        }
    }
    assert(id_map(after) =~= id_map(entries).insert(entry.id@, entry.fd));
}

proof fn lemma_id_map_remove(entries: Seq<IdEntry>, at: int)
    requires
        ids_distinct(entries),
        0 <= at < entries.len(),
    ensures
        ids_distinct(entries.remove(at)),
        id_map(entries.remove(at)) == id_map(entries).remove(entries[at].id@),
{
    let after = entries.remove(at);
    let gone = entries[at].id@;
    assert forall|i: int| 0 <= i < after.len() implies #[trigger] after[i] == entries[if i < at {
        i
    } else {
        i + 1
    }] by {}
    assert forall|i: int, j: int| 0 <= i < j < after.len() implies (#[trigger] after[i]).id@ != (
    #[trigger] after[j]).id@ by {
        let oi = if i < at { i } else { i + 1 };
        let oj = if j < at { j } else { j + 1 };
        assert(entries[oi].id@ != entries[oj].id@);
    }
    assert forall|id: Seq<char>| #[trigger]
        id_map(after).contains_key(id) <==> id_map(entries).remove(gone).contains_key(id) by {
        if has_id(after, id) {
            let i = index_of_id(after, id);
            let oi = if i < at { i } else { i + 1 };
            assert(entries[oi].id@ == id);
            if oi < at {
                assert(entries[oi].id@ != entries[at].id@);
            } else {
                assert(entries[at].id@ != entries[oi].id@);
            }
        }
        if has_id(entries, id) && id != gone {
            let i = index_of_id(entries, id);
            let ni = if i < at { i } else { i - 1 };
            assert(after[ni].id@ == id);
        }
    }
    assert forall|id: Seq<char>| #[trigger] id_map(after).contains_key(id) implies id_map(
        after,
    )[id] == id_map(entries).remove(gone)[id] by {
        let i = index_of_id(after, id);
        lemma_id_map_at(after, i);
        let oi = if i < at { i } else { i + 1 };
        assert(entries[oi].id@ == id);
        lemma_id_map_at(entries, oi);
    }
    assert(id_map(after) =~= id_map(entries).remove(gone));
}

/// The registry of active source devices.
pub struct SourceDeviceSet {
    fdmap: HashMap<i32, SourceDevice>,
    idmap: Vec<IdEntry>,
}

impl View for SourceDeviceSet {
    type V = RegistryState;

    closed spec fn view(&self) -> RegistryState {
        RegistryState {
            by_fd: self.fdmap@.map_values(|dev: SourceDevice| dev@),
            by_id: id_map(self.idmap@),
        }
    }
}

impl SourceDeviceSet {
    /// The representation is sound: the indexes are consistent and no name
    /// occurs twice in the name index.
    pub closed spec fn inv(&self) -> bool {
        &&& self@.wf()
        &&& ids_distinct(self.idmap@)
    }

    /// A sound registry has consistent indexes.
    pub proof fn lemma_inv_consistent(&self)
        requires
            self.inv(),
        ensures
            self@.wf(),
    {
    }

    /// The registry without devices.
    pub fn new() -> (set: Self)
        ensures
            set.inv(),
            set@ == RegistryState::empty(),
    {
        let set = SourceDeviceSet { fdmap: HashMap::new(), idmap: Vec::new() };
        assert(set@.by_fd =~= Map::<i32, SourceState>::empty());
        assert(set@.by_id =~= Map::<Seq<char>, i32>::empty());
        set
    }

    /// The number of registered devices.
    pub fn len(&self) -> (len: usize)
        ensures
            len == self@.by_fd.len(),
    {
        assert(self@.by_fd.dom() =~= self.fdmap@.dom());
        self.fdmap.len()
    }

    fn find_id(&self, id: &String) -> (found: Option<usize>)
        ensures
            match found {
                Some(i) => i < self.idmap@.len() && self.idmap@[i as int].id@ == id@,
                None => !has_id(self.idmap@, id@),
            },
    {
        let mut i: usize = 0;
        while i < self.idmap.len()
            invariant
                i <= self.idmap@.len(),
                forall|j: int| 0 <= j < i ==> (#[trigger] self.idmap@[j]).id@ != id@,
            decreases self.idmap@.len() - i,
        {
            if self.idmap[i].id == *id {
                return Some(i);
            }
            i = i + 1;
        }
        None
    }

    /// The device registered under descriptor `fd`, if there is one.
    pub fn get_by_fd(&self, fd: i32) -> (found: Option<&SourceDevice>)
        ensures
            match found {
                Some(dev) => self@.by_fd.contains_key(fd) && dev@ == self@.by_fd[fd],
                None => !self@.by_fd.contains_key(fd),
            },
    {
        self.fdmap.get(&fd)
    }

    /// The device registered under role name `id`, if there is one.
    pub fn get_by_id(&self, id: &String) -> (found: Option<&SourceDevice>)
        requires
            self.inv(),
        ensures
            match found {
                Some(dev) => self@.device(id@) == Some(dev@),
                None => self@.device(id@) is None,
            },
    {
        match self.find_id(id) {
            Some(i) => {
                proof {
                    lemma_id_map_at(self.idmap@, i as int);
                }
                self.fdmap.get(&self.idmap[i].fd)
            },
            None => None,
        }
    }

    /// Registers `srcdev` in both indexes.
    ///
    /// A device whose descriptor or whose name is already registered is
    /// rejected, and the registry stays as it was.
    pub fn push(&mut self, srcdev: SourceDevice) -> (r: Result<(), Error>)
        requires
            old(self).inv(),
        ensures
            final(self).inv(),
            final(self)@ == old(self)@.push(srcdev@),
            old(self)@.admits(srcdev@) ==> r is Ok,
            old(self)@.by_fd.contains_key(srcdev@.fd) ==> fails_with(
                r,
                "descriptor already registered"@,
            ),
            !old(self)@.by_fd.contains_key(srcdev@.fd) && old(self)@.by_id.contains_key(srcdev@.id)
                ==> fails_with(r, "device name already registered"@),
    {
        let fd = srcdev.fd();
        let id = srcdev.id();
        if self.fdmap.get(&fd).is_some() {
            return Err(Error::msg("descriptor already registered"));
        }
        if self.find_id(&id).is_some() {
            return Err(Error::msg("device name already registered"));
        }
        let entry = IdEntry { id, fd };
        proof {
            lemma_id_map_push(self.idmap@, entry);
            lemma_push_keeps_consistency(self@, srcdev@);
        }
        self.fdmap.insert(fd, srcdev);
        self.idmap.push(entry);
        assert(self@.by_fd =~= old(self)@.by_fd.insert(fd, srcdev@));
        Ok(())
    }

    /// Removes the device registered under `fd` from both indexes and hands
    /// it back; an unknown descriptor changes nothing.
    pub fn remove_by_fd(&mut self, fd: i32) -> (removed: Option<SourceDevice>)
        requires
            old(self).inv(),
        ensures
            final(self).inv(),
            final(self)@ == old(self)@.remove_by_fd(fd),
            match removed {
                Some(dev) => old(self)@.by_fd.contains_key(fd) && dev@ == old(self)@.by_fd[fd],
                None => !old(self)@.by_fd.contains_key(fd),
            },
    {
        match self.fdmap.remove(&fd) {
            Some(dev) => {
                let id = dev.id();
                proof {
                    lemma_remove_keeps_consistency(old(self)@, fd);
                }
                let found = self.find_id(&id);
                assert(found is Some) by {
                    assert(old(self)@.by_id.contains_key(id@));
                }
                if let Some(at) = found {
                    proof {
                        lemma_id_map_remove(self.idmap@, at as int);
                    }
                    self.idmap.remove(at);
                }
                assert(self@.by_fd =~= old(self)@.by_fd.remove(fd));
                Some(dev)
            },
            None => {
                assert(self@.by_fd =~= old(self)@.by_fd);
                None
            },
        }
    }

    /// Records what the node behind `fd` reports for (`type_`, `code`): its
    /// current value, or `None` if the device does not track the code.
    /// Returns whether a device is registered under `fd`; if none is,
    /// nothing changes.
    pub fn set_event_state(&mut self, fd: i32, type_: u32, code: u32, value: Option<i32>) -> (known:
        bool)
        requires
            old(self).inv(),
        ensures
            final(self).inv(),
            known == old(self)@.by_fd.contains_key(fd),
            !known ==> final(self)@ == old(self)@,
            known ==> final(self)@ == (RegistryState {
                by_fd: old(self)@.by_fd.insert(
                    fd,
                    SourceState {
                        states: match value {
                            Some(v) => old(self)@.by_fd[fd].states.insert((type_, code), v),
                            None => old(self)@.by_fd[fd].states.remove((type_, code)),
                        },
                        ..old(self)@.by_fd[fd]
                    },
                ),
                ..old(self)@
            }),
    {
        match self.fdmap.remove(&fd) {
            Some(dev) => {
                let mut dev = dev;
                assert(old(self)@.by_fd.contains_key(fd) && old(self)@.by_fd[fd] == dev@);
                dev.set_event_state(type_, code, value);
                proof {
                    lemma_update_keeps_consistency(old(self)@, dev@);
                }
                self.fdmap.insert(fd, dev);
                assert(self@.by_fd =~= old(self)@.by_fd.insert(fd, dev@));
                true
            },
            None => {
                assert(self@.by_fd =~= old(self)@.by_fd);
                false
            },
        }
    }

    /// Whether `modf` holds now.
    ///
    /// With a role name, the answer is that of the named device, where a
    /// missing device and an unknown state count as false. Without one, the
    /// answer is true exactly if some registered device reports true.
    pub fn test_modifier(&self, device: Option<&String>, modf: Modifier) -> (holds: bool)
        requires
            self.inv(),
        ensures
            holds == self@.test_modifier(
                match device {
                    Some(id) => Some(id@),
                    None => None,
                },
                modf,
            ),
    {
        match device {
            Some(id) => match self.get_by_id(id) {
                Some(dev) => match dev.match_modifier(modf) {
                    Some(answer) => answer,
                    None => false,
                },
                None => false,
            },
            None => {
                let mut i: usize = 0;
                while i < self.idmap.len()
                    invariant
                        self.inv(),
                        device is None,
                        i <= self.idmap@.len(),
                        forall|j: int|
                            0 <= j < i ==> self@.by_fd[(#[trigger] self.idmap@[j]).fd].match_modifier(
                                modf,
                            ) != Some(true),
                    decreases self.idmap@.len() - i,
                {
                    let fd = self.idmap[i].fd;
                    proof {
                        lemma_id_map_at(self.idmap@, i as int);
                        assert(self@.by_id.contains_key(self.idmap@[i as int].id@));
                        assert(self@.by_fd.contains_key(fd));
                    }
                    match self.fdmap.get(&fd) {
                        Some(dev) => {
                            assert(dev@ == self@.by_fd[fd]);
                            if let Some(true) = dev.match_modifier(modf) {
                                assert(self@.by_fd.contains_key(fd) && self@.by_fd[fd].match_modifier(
                                    modf,
                                ) == Some(true));
                                return true;
                            }
                        },
                        None => {},
                    }
                    i = i + 1;
                }
                assert forall|fd: i32| #[trigger] self@.by_fd.contains_key(fd) implies self@.by_fd[fd].match_modifier(
                    modf,
                ) != Some(true) by {
                    let id = self@.by_fd[fd].id;
                    assert(self@.by_id.contains_key(id));
                    let j = index_of_id(self.idmap@, id);
                    lemma_id_map_at(self.idmap@, j);
                    assert(self.idmap@[j].fd == fd);
                }
                false
            },
        }
    }
}

} // verus!
