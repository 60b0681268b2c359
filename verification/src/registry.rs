//! The resource registry: named device buffers and named staging pairs.
//!
//! Names are resolved through hash tables to slots of two arenas. A swap
//! exchanges the slots that two names resolve to; the buffers stay where they
//! are. Staging pairs are walked in the order in which their names were first
//! registered.

use crate::command::{Command, CommandView, MapMode, MapRequest, MapRequestView, requests_view, commands_view};
use crate::error::{agrees, Error, ErrorView};
use crate::resource::{DeviceBuffer, StagingBuffers, StagingView};
use crate::table::{name_entries, NameTable};
use vstd::prelude::*;

verus! {

/// The mathematical value of a registry.
pub struct RegistryView {
    /// The device buffer that each registered name resolves to.
    pub buffers: Map<Seq<char>, DeviceBuffer>,
    /// The staging pair of each name that has one.
    pub staging: Map<Seq<char>, StagingView>,
    /// The names of the staging pairs, in the order of their registration.
    pub order: Seq<Seq<char>>,
}

impl RegistryView {
    /// The registry that holds nothing.
    pub open spec fn empty() -> RegistryView {
        RegistryView { buffers: Map::empty(), staging: Map::empty(), order: Seq::empty() }
    }

    /// Every staging pair is listed exactly once in `order`, and belongs to a
    /// name that resolves to a device buffer.
    pub open spec fn inv(self) -> bool {
        &&& self.order.no_duplicates()
        &&& forall|i: int|
            0 <= i < self.order.len() ==> self.staging.contains_key(#[trigger] self.order[i])
                && self.buffers.contains_key(self.order[i])
        &&& forall|name: Seq<char>|
            self.staging.contains_key(name) ==> #[trigger] self.order.contains(name)
        &&& forall|name: Seq<char>| #[trigger]
            self.staging.contains_key(name) ==> self.staging[name].consistent()
    }

    /// The registry once `buffer` is registered under `name`, in place of
    /// what the name resolved to before.
    pub open spec fn with_buffer(self, name: Seq<char>, buffer: DeviceBuffer) -> RegistryView {
        RegistryView { buffers: self.buffers.insert(name, buffer), ..self }
    }

    /// The registry once `pair` is the staging pair of `name`. A name that
    /// had a pair keeps its place in the order; a new one comes last.
    pub open spec fn with_staging(self, name: Seq<char>, pair: StagingView) -> RegistryView {
        RegistryView {
            staging: self.staging.insert(name, pair),
            order: if self.staging.contains_key(name) {
                self.order
            } else {
                self.order.push(name)
            },
            ..self
        }
    }

    /// The registry once the buffers of `a` and `b` are exchanged.
    pub open spec fn swapped(self, a: Seq<char>, b: Seq<char>) -> RegistryView {
        RegistryView {
            buffers: self.buffers.insert(a, self.buffers[b]).insert(b, self.buffers[a]),
            ..self
        }
    }

    /// The outcome of a swap: the first of the two names that resolves to no
    /// buffer is reported, and otherwise the two buffers are exchanged.
    pub open spec fn swap(self, a: Seq<char>, b: Seq<char>) -> Result<RegistryView, ErrorView> {
        if !self.buffers.contains_key(a) {
            Err(ErrorView::BufferNotFound(a))
        } else if !self.buffers.contains_key(b) {
            Err(ErrorView::BufferNotFound(b))
        } else {
            Ok(self.swapped(a, b))
        }
    }

    /// The upload of the `i`-th staging pair: its write buffer is copied over
    /// the whole of the device buffer of the same name.
    pub open spec fn write_copy(self, i: int) -> CommandView {
        let name = self.order[i];
        CommandView::CopyBufferToBuffer {
            source: self.staging[name].write,
            destination: self.buffers[name].id,
            size: self.buffers[name].size,
        }
    }

    /// The download of the `i`-th staging pair: the device buffer of the same
    /// name is copied over the whole of its read buffer.
    pub open spec fn read_copy(self, i: int) -> CommandView {
        let name = self.order[i];
        CommandView::CopyBufferToBuffer {
            source: self.buffers[name].id,
            destination: self.staging[name].read,
            size: self.staging[name].size,
        }
    }

    /// The uploads of all staging pairs, in order.
    pub open spec fn write_copies(self) -> Seq<CommandView> {
        Seq::new(self.order.len(), |i: int| self.write_copy(i))
    }

    /// The downloads of all staging pairs, in order.
    pub open spec fn read_copies(self) -> Seq<CommandView> {
        Seq::new(self.order.len(), |i: int| self.read_copy(i))
    }

    /// The map requests for the first `n` staging pairs: for each pair its
    /// read buffer, followed by its write buffer where a write was pending.
    pub open spec fn map_requests(self, write_pending: bool, n: nat) -> Seq<MapRequestView>
        decreases n,
    {
        if n == 0 {
            Seq::empty()
        } else {
            let name = self.order[n - 1];
            let read = self.map_requests(write_pending, (n - 1) as nat).push(
                MapRequestView { name, buffer: self.staging[name].read, mode: MapMode::Read },
            );
            if write_pending {
                read.push(
                    MapRequestView { name, buffer: self.staging[name].write, mode: MapMode::Write },
                )
            } else {
                read
            }
        }
    }

    /// The registry once the map requests are issued.
    pub open spec fn mapped(self, write_pending: bool) -> RegistryView {
        RegistryView {
            staging: Map::new(
                |name: Seq<char>| self.staging.contains_key(name),
                |name: Seq<char>| self.staging[name].mapped(write_pending),
            ),
            ..self
        }
    }

    /// The buffers to unmap among the first `n` staging pairs: for each pair
    /// its read buffer if it is mapped, then its write buffer if it is.
    pub open spec fn unmap_requests(self, n: nat) -> Seq<usize>
        decreases n,
    {
        if n == 0 {
            Seq::empty()
        } else {
            let pair = self.staging[self.order[n - 1]];
            let before = self.unmap_requests((n - 1) as nat);
            let read = if pair.read_mapped {
                before.push(pair.read)
            } else {
                before
            };
            if pair.write_mapped {
                read.push(pair.write)
            } else {
                read
            }
        }
    }

    /// The registry once every mapping is released.
    pub open spec fn unmapped(self) -> RegistryView {
        RegistryView {
            staging: Map::new(
                |name: Seq<char>| self.staging.contains_key(name),
                |name: Seq<char>| self.staging[name].unmapped(),
            ),
            ..self
        }
    }

    /// Whether `data` can be what the host found in the read buffer of
    /// `name`: it has the size of that buffer.
    pub open spec fn fillable(self, name: Seq<char>, data: Seq<u8>) -> bool {
        self.staging.contains_key(name) ==> data.len() == self.staging[name].size
    }

    /// The registry once the host has found `data` in the mapped read buffer
    /// of `name`.
    pub open spec fn filled(self, name: Seq<char>, data: Seq<u8>) -> RegistryView {
        RegistryView {
            staging: self.staging.insert(name, StagingView { data, ..self.staging[name] }),
            ..self
        }
    }
}

/// Named device buffers and named staging pairs.
pub struct Registry {
    names: NameTable,
    device: Vec<DeviceBuffer>,
    pairs: NameTable,
    staging: Vec<StagingBuffers>,
}

impl View for Registry {
    type V = RegistryView;

    closed spec fn view(&self) -> RegistryView {
        RegistryView {
            buffers: Map::new(
                |name: Seq<char>| name_entries(self.names).contains_key(name),
                |name: Seq<char>| self.device@[name_entries(self.names)[name] as int],
            ),
            staging: Map::new(
                |name: Seq<char>| name_entries(self.pairs).contains_key(name),
                |name: Seq<char>| self.staging@[name_entries(self.pairs)[name] as int]@,
            ),
            order: Seq::new(self.staging@.len(), |i: int| self.staging@[i].name@),
        }
    }
}

impl Registry {
    /// The tables and the arenas agree: every name resolves to a slot that
    /// exists, and the staging pairs are exactly the slots of their arena,
    /// each under its own name.
    pub closed spec fn wf(&self) -> bool {
        &&& forall|name: Seq<char>| #[trigger]
            name_entries(self.names).contains_key(name) ==> name_entries(self.names)[name]
                < self.device@.len()
        &&& forall|name: Seq<char>| #[trigger]
            name_entries(self.pairs).contains_key(name) ==> {
                &&& name_entries(self.pairs)[name] < self.staging@.len()
                &&& self.staging@[name_entries(self.pairs)[name] as int].name@ == name
            }
        &&& forall|i: int|
            0 <= i < self.staging@.len() ==> {
                &&& name_entries(self.pairs).contains_key((#[trigger] self.staging@[i]).name@)
                &&& name_entries(self.pairs)[self.staging@[i].name@] == i
                &&& name_entries(self.names).contains_key(self.staging@[i].name@)
                &&& self.staging@[i]@.consistent()
            }
    }

    /// A well-formed registry has a value that meets `RegistryView::inv`.
    pub proof fn lemma_inv(&self)
        requires
            self.wf(),
        ensures
            self@.inv(),
    {
        let view = self@;
        assert forall|name: Seq<char>| view.staging.contains_key(name) implies view.order.contains(
            name,
        ) by {
            let i = name_entries(self.pairs)[name] as int;
            assert(view.order[i] == name);
        }
    }

    /// A registry that holds nothing.
    pub fn new() -> (registry: Registry)
        ensures
            registry.wf(),
            registry@ == RegistryView::empty(),
    {
        let registry = Registry {
            names: NameTable::new(),
            device: Vec::new(),
            pairs: NameTable::new(),
            staging: Vec::new(),
        };
        proof {
            assert(registry@.buffers =~= Map::empty());
            assert(registry@.staging =~= Map::empty());
            assert(registry@.order =~= Seq::empty());
        }
        registry
    }

    /// Registers the device buffer `id` of `size` bytes under `name`. The
    /// name resolves to it from now on, whatever it resolved to before.
    pub fn add_buffer(&mut self, name: &str, id: usize, size: u64)
        requires
            old(self).wf(),
        ensures
            final(self).wf(),
            final(self)@ == old(self)@.with_buffer(name@, DeviceBuffer { id, size }),
    {
        let slot = self.device.len();
        self.device.push(DeviceBuffer { id, size });
        self.names.insert(name, slot);
        proof {
            assert(self@.buffers =~= old(self)@.buffers.insert(name@, DeviceBuffer { id, size }));
            assert(self@.staging =~= old(self)@.staging);
            assert(self@.order =~= old(self)@.order);
        }
    }

    /// Registers a staging pair for `name`, over the created buffers `read`
    /// and `write` of `size` bytes each. The name must resolve to a device
    /// buffer already.
    pub fn add_staging(&mut self, name: &str, read: usize, write: usize, size: u64) -> (result:
        Result<(), Error>)
        requires
            old(self).wf(),
        ensures
            final(self).wf(),
            match result {
                Ok(_) => old(self)@.buffers.contains_key(name@) && final(self)@ == old(
                    self,
                )@.with_staging(name@, StagingView::fresh(read, write, size)),
                Err(error) => !old(self)@.buffers.contains_key(name@) && error@
                    == ErrorView::BufferNotFound(name@) && final(self)@ == old(self)@,
            },
    {
        if self.names.get(name).is_none() {
            return Err(Error::BufferNotFound(name.to_owned()));
        }
        let pair = StagingBuffers::new(name, read, write, size);
        match self.pairs.get(name) {
            Some(slot) => {
                self.staging[slot] = pair;
                proof {
                    assert(self@.order =~= old(self)@.order);
                }
            },
            None => {
                let slot = self.staging.len();
                self.staging.push(pair);
                self.pairs.insert(name, slot);
                proof {
                    assert(self@.order =~= old(self)@.order.push(name@));
                }
            },
        }
        proof {
            assert(self@.buffers =~= old(self)@.buffers);
            assert(self@.staging =~= old(self)@.staging.insert(
                name@,
                StagingView::fresh(read, write, size),
            ));
        }
        Ok(())
    }

    /// The device buffer that `name` resolves to.
    pub fn buffer(&self, name: &str) -> (found: Option<DeviceBuffer>)
        requires
            self.wf(),
        ensures
            found == (if self@.buffers.contains_key(name@) {
                Some(self@.buffers[name@])
            } else {
                None
            }),
    {
        match self.names.get(name) {
            Some(slot) => Some(self.device[slot]),
            None => None,
        }
    }

    /// Exchanges the device buffers that `a` and `b` resolve to. Where one of
    /// the names resolves to nothing, the first such name is reported and the
    /// registry stays as it is.
    pub fn swap(&mut self, a: &str, b: &str) -> (result: Result<(), Error>)
        requires
            old(self).wf(),
        ensures
            final(self).wf(),
            agrees(old(self)@.swap(a@, b@), old(self)@, result, final(self)@),
    {
        let slot_a = match self.names.get(a) {
            Some(slot) => slot,
            None => {
                return Err(Error::BufferNotFound(a.to_owned()));
            },
        };
        let slot_b = match self.names.get(b) {
            Some(slot) => slot,
            None => {
                return Err(Error::BufferNotFound(b.to_owned()));
            },
        };
        self.names.insert(a, slot_b);
        self.names.insert(b, slot_a);
        proof {
            assert(self@.buffers =~= old(self)@.swapped(a@, b@).buffers);
            assert(self@.staging =~= old(self)@.staging);
            assert(self@.order =~= old(self)@.order);
        }
        Ok(())
    }

    /// The number of staging pairs.
    pub fn staging_len(&self) -> (len: usize)
        ensures
            len == self@.order.len(),
    {
        self.staging.len()
    }

    /// The `i`-th staging pair, in the order of registration.
    pub fn staging_at(&self, i: usize) -> (pair: &StagingBuffers)
        requires
            self.wf(),
            i < self@.order.len(),
        ensures
            pair.name@ == self@.order[i as int],
            pair@ == self@.staging[self@.order[i as int]],
    {
        &self.staging[i]
    }

    /// The staging pair registered under `name`.
    pub fn staging(&self, name: &str) -> (found: Option<&StagingBuffers>)
        requires
            self.wf(),
        ensures
            match found {
                Some(pair) => self@.staging.contains_key(name@) && pair.name@ == name@ && pair@
                    == self@.staging[name@],
                None => !self@.staging.contains_key(name@),
            },
    {
        match self.pairs.get(name) {
            Some(slot) => Some(&self.staging[slot]),
            None => None,
        }
    }

    /// Marks every read buffer as mapped, and every write buffer too where a
    /// write was pending, and returns the map requests to issue.
    pub fn map_all(&mut self, write_pending: bool) -> (requests: Vec<MapRequest>)
        requires
            old(self).wf(),
        ensures
            final(self).wf(),
            final(self)@ == old(self)@.mapped(write_pending),
            requests_view(requests@) == old(self)@.map_requests(
                write_pending,
                old(self)@.order.len(),
            ),
    {
        let mut requests: Vec<MapRequest> = Vec::new();
        let mut i: usize = 0;
        while i < self.staging.len()
            invariant
                i <= self.staging@.len(),
                self.staging@.len() == old(self).staging@.len(),
                self.names == old(self).names,
                self.pairs == old(self).pairs,
                self.device == old(self).device,
                old(self).wf(),
                forall|j: int|
                    0 <= j < self.staging@.len() ==> (#[trigger] self.staging@[j]).name == old(
                        self,
                    ).staging@[j].name,
                forall|j: int|
                    0 <= j < i ==> (#[trigger] self.staging@[j])@ == old(
                        self,
                    ).staging@[j]@.mapped(write_pending),
                forall|j: int|
                    i <= j < self.staging@.len() ==> (#[trigger] self.staging@[j])@ == old(
                        self,
                    ).staging@[j]@,
                requests_view(requests@) == old(self)@.map_requests(write_pending, i as nat),
            decreases self.staging@.len() - i,
        {
            let ghost before = requests_view(requests@);
            let name = self.staging[i].name.clone();
            let read = self.staging[i].read;
            let write = self.staging[i].write;
            requests.push(MapRequest { name, buffer: read, mode: MapMode::Read });
            self.staging[i].read_mapped = true;
            proof {
                assert(requests_view(requests@) =~= before.push(
                    MapRequestView { name: name@, buffer: read, mode: MapMode::Read },
                ));
            }
            if write_pending {
                let ghost with_read = requests_view(requests@);
                let name = self.staging[i].name.clone();
                requests.push(MapRequest { name, buffer: write, mode: MapMode::Write });
                self.staging[i].write_mapped = true;
                proof {
                    assert(requests_view(requests@) =~= with_read.push(
                        MapRequestView { name: name@, buffer: write, mode: MapMode::Write },
                    ));
                }
            }
            i += 1;
        }
        proof {
            assert(self@.buffers =~= old(self)@.buffers);
            assert(self@.staging =~= old(self)@.mapped(write_pending).staging);
            assert(self@.order =~= old(self)@.order);
        }
        requests
    }

    /// Marks every buffer as unmapped, forgets what the host found in the
    /// read buffers, and returns the buffers to unmap.
    pub fn unmap_all(&mut self) -> (buffers: Vec<usize>)
        requires
            old(self).wf(),
        ensures
            final(self).wf(),
            final(self)@ == old(self)@.unmapped(),
            buffers@ == old(self)@.unmap_requests(old(self)@.order.len()),
    {
        let mut buffers: Vec<usize> = Vec::new();
        let mut i: usize = 0;
        while i < self.staging.len()
            invariant
                i <= self.staging@.len(),
                self.staging@.len() == old(self).staging@.len(),
                self.names == old(self).names,
                self.pairs == old(self).pairs,
                self.device == old(self).device,
                old(self).wf(),
                forall|j: int|
                    0 <= j < self.staging@.len() ==> (#[trigger] self.staging@[j]).name == old(
                        self,
                    ).staging@[j].name,
                forall|j: int|
                    0 <= j < i ==> (#[trigger] self.staging@[j])@ == old(
                        self,
                    ).staging@[j]@.unmapped(),
                forall|j: int|
                    i <= j < self.staging@.len() ==> (#[trigger] self.staging@[j])@ == old(
                        self,
                    ).staging@[j]@,
                buffers@ == old(self)@.unmap_requests(i as nat),
            decreases self.staging@.len() - i,
        {
            if self.staging[i].read_mapped {
                buffers.push(self.staging[i].read);
                self.staging[i].read_mapped = false;
            }
            if self.staging[i].write_mapped {
                buffers.push(self.staging[i].write);
                self.staging[i].write_mapped = false;
            }
            self.staging[i].data = Vec::new();
            i += 1;
        }
        proof {
            assert(self@.buffers =~= old(self)@.buffers);
            assert(self@.staging =~= old(self)@.unmapped().staging);
            assert(self@.order =~= old(self)@.order);
        }
        buffers
    }

    /// Records `data` as what the host found in the mapped read buffer of
    /// `name`; it has to be the whole contents of that buffer.
    pub fn fill(&mut self, name: &str, data: Vec<u8>) -> (result: Result<(), Error>)
        requires
            old(self).wf(),
            old(self)@.fillable(name@, data@),
        ensures
            final(self).wf(),
            match result {
                Ok(_) => old(self)@.staging.contains_key(name@) && final(self)@ == old(
                    self,
                )@.filled(name@, data@),
                Err(error) => !old(self)@.staging.contains_key(name@) && error@
                    == ErrorView::StagingBufferNotFound(name@) && final(self)@ == old(self)@,
            },
    {
        match self.pairs.get(name) {
            Some(slot) => {
                self.staging[slot].data = data;
                proof {
                    assert(self@.buffers =~= old(self)@.buffers);
                    assert(self@.staging =~= old(self)@.filled(name@, data@).staging);
                    assert(self@.order =~= old(self)@.order);
                }
                Ok(())
            },
            None => Err(Error::StagingBufferNotFound(name.to_owned())),
        }
    }

    /// The uploads of all staging pairs, in order.
    pub fn write_copies(&self) -> (commands: Vec<Command>)
        requires
            self.wf(),
        ensures
            commands_view(commands@) == self@.write_copies(),
    {
        let mut commands: Vec<Command> = Vec::new();
        let mut i: usize = 0;
        while i < self.staging.len()
            invariant
                i <= self.staging@.len(),
                self.wf(),
                commands_view(commands@) == Seq::new(i as nat, |j: int| self@.write_copy(j)),
            decreases self.staging@.len() - i,
        {
            let ghost before = commands_view(commands@);
            let pair = &self.staging[i];
            match self.names.get(pair.name.as_str()) {
                Some(slot) => {
                    let buffer = self.device[slot];
                    commands.push(
                        Command::CopyBufferToBuffer {
                            source: pair.write,
                            destination: buffer.id,
                            size: buffer.size,
                        },
                    );
                },
                None => {
                    // A staging pair always belongs to a registered name.
                    proof {
                        assert(false);
                    }
                },
            }
            proof {
                assert(commands_view(commands@) =~= before.push(self@.write_copy(i as int)));
                assert(commands_view(commands@) =~= Seq::new(
                    (i + 1) as nat,
                    |j: int| self@.write_copy(j),
                ));
            }
            i += 1;
        }
        proof {
            assert(commands_view(commands@) =~= self@.write_copies());
        }
        commands
    }

    /// The downloads of all staging pairs, in order.
    pub fn read_copies(&self) -> (commands: Vec<Command>)
        requires
            self.wf(),
        ensures
            commands_view(commands@) == self@.read_copies(),
    {
        let mut commands: Vec<Command> = Vec::new();
        let mut i: usize = 0;
        while i < self.staging.len()
            invariant
                i <= self.staging@.len(),
                self.wf(),
                commands_view(commands@) == Seq::new(i as nat, |j: int| self@.read_copy(j)),
            decreases self.staging@.len() - i,
        {
            let ghost before = commands_view(commands@);
            let pair = &self.staging[i];
            match self.names.get(pair.name.as_str()) {
                Some(slot) => {
                    let buffer = self.device[slot];
                    commands.push(
                        Command::CopyBufferToBuffer {
                            source: buffer.id,
                            destination: pair.read,
                            size: pair.size,
                        },
                    );
                },
                None => {
                    // A staging pair always belongs to a registered name.
                    proof {
                        assert(false);
                    }
                },
            }
            proof {
                assert(commands_view(commands@) =~= before.push(self@.read_copy(i as int)));
                assert(commands_view(commands@) =~= Seq::new(
                    (i + 1) as nat,
                    |j: int| self@.read_copy(j),
                ));
            }
            i += 1;
        }
        proof {
            assert(commands_view(commands@) =~= self@.read_copies());
        }
        commands
    }
}

} // verus!
