use vstd::prelude::*;
use crate::state::device::Device;

pub mod device;

verus! {

/// A device record under its identifier.
pub struct Entry {
    pub id: u64,
    pub device: Device,
}

/// A room and the devices in it, in the order in which they were placed.
pub struct Room {
    pub name: String,
    pub members: Vec<u64>,
}

/// A human-readable name for a device.
pub struct Alias {
    pub name: String,
    pub id: u64,
}

/// What an inventory holds: the device under each identifier, the devices
/// of each room in the order in which they were placed, and the identifier
/// that each name stands for.
pub struct Inventory {
    pub devices: Map<u64, Device>,
    pub rooms: Map<Seq<char>, Seq<u64>>,
    pub names: Map<Seq<char>, u64>,
}

/// The inventory the worker owns: devices by identifier, rooms by name,
/// and names for devices.
pub struct State {
    devices: Vec<Entry>,
    rooms: Vec<Room>,
    names: Vec<Alias>,
}

/// There is a record under `id` among `entries`.
pub open spec fn holds_id(entries: Seq<Entry>, id: u64) -> bool {
    exists|i: int| 0 <= i < entries.len() && (#[trigger] entries[i]).id == id
}

/// No identifier occurs twice among `entries`.
pub open spec fn distinct_ids(entries: Seq<Entry>) -> bool {
    forall|i: int, j: int|
        0 <= i < j < entries.len() ==> (#[trigger] entries[i]).id != (#[trigger] entries[j]).id
}

/// No name occurs twice among `aliases`.
pub open spec fn distinct_names(aliases: Seq<Alias>) -> bool {
    forall|i: int, j: int|
        0 <= i < j < aliases.len() ==> (#[trigger] aliases[i]).name@ != (
        #[trigger] aliases[j]).name@
}

/// No room occurs twice among `chambers`.
pub open spec fn distinct_rooms(chambers: Seq<Room>) -> bool {
    forall|i: int, j: int|
        0 <= i < j < chambers.len() ==> (#[trigger] chambers[i]).name@ != (
        #[trigger] chambers[j]).name@
}

/// Every name among `aliases` stands for a record among `entries`.
pub open spec fn names_resolve(entries: Seq<Entry>, aliases: Seq<Alias>) -> bool {
    forall|i: int| 0 <= i < aliases.len() ==> holds_id(entries, (#[trigger] aliases[i]).id)
}

/// Every member of a room among `chambers` has a record among `entries`.
pub open spec fn rooms_resolve(entries: Seq<Entry>, chambers: Seq<Room>) -> bool {
    forall|i: int, k: int|
        0 <= i < chambers.len() && 0 <= k < chambers[i].members@.len() ==> holds_id(
            entries,
            #[trigger] chambers[i].members@[k],
        )
}

/// No identifier and no name occurs twice, and every identifier that a
/// room or a name refers to has a device.
pub open spec fn well_formed(entries: Seq<Entry>, chambers: Seq<Room>, aliases: Seq<Alias>) -> bool {
    &&& distinct_ids(entries)
    &&& distinct_names(aliases)
    &&& distinct_rooms(chambers)
    &&& names_resolve(entries, aliases)
    &&& rooms_resolve(entries, chambers)
}

fn knows(devices: &Vec<Entry>, id: u64) -> (found: Option<usize>)
    ensures
        match found {
            Some(i) => i < devices.len() && devices[i as int].id == id,
            None => !holds_id(devices@, id),
        },
{
    let mut i: usize = 0;
    while i < devices.len()
        invariant
            i <= devices.len(),
            forall|k: int| 0 <= k < i ==> devices@[k].id != id,
        decreases devices.len() - i,
    {
        if devices[i].id == id {
            return Some(i);
        }
        i += 1;
    }
    None
}

fn has_distinct_ids(devices: &Vec<Entry>) -> (ok: bool)
    ensures
        ok == distinct_ids(devices@),
{
    let mut j: usize = 0;
    while j < devices.len()
        invariant
            j <= devices.len(),
            forall|a: int, b: int| 0 <= a < b < j ==> devices@[a].id != devices@[b].id,
        decreases devices.len() - j,
    {
        let mut i: usize = 0;
        while i < j
            invariant
                i <= j < devices.len(),
                forall|a: int| 0 <= a < i ==> devices@[a].id != devices@[j as int].id,
            decreases j - i,
        {
            if devices[i].id == devices[j].id {
                return false;
            }
            i += 1;
        }
        j += 1;
    }
    true
}

fn has_distinct_names(names: &Vec<Alias>) -> (ok: bool)
    ensures
        ok == distinct_names(names@),
{
    let mut j: usize = 0;
    while j < names.len()
        invariant
            j <= names.len(),
            forall|a: int, b: int| 0 <= a < b < j ==> names@[a].name@ != names@[b].name@,
        decreases names.len() - j,
    {
        let mut i: usize = 0;
        while i < j
            invariant
                i <= j < names.len(),
                forall|a: int| 0 <= a < i ==> names@[a].name@ != names@[j as int].name@,
            decreases j - i,
        {
            if names[i].name == names[j].name {
                return false;
            }
            i += 1;
        }
        j += 1;
    }
    true
}

fn has_distinct_rooms(rooms: &Vec<Room>) -> (ok: bool)
    ensures
        ok == distinct_rooms(rooms@),
{
    let mut j: usize = 0;
    while j < rooms.len()
        invariant
            j <= rooms.len(),
            forall|a: int, b: int| 0 <= a < b < j ==> rooms@[a].name@ != rooms@[b].name@,
        decreases rooms.len() - j,
    {
        let mut i: usize = 0;
        while i < j
            invariant
                i <= j < rooms.len(),
                forall|a: int| 0 <= a < i ==> rooms@[a].name@ != rooms@[j as int].name@,
            decreases j - i,
        {
            if rooms[i].name == rooms[j].name {
                return false;
            }
            i += 1;
        }
        j += 1;
    }
    true
}

fn has_names_resolved(devices: &Vec<Entry>, names: &Vec<Alias>) -> (ok: bool)
    ensures
        ok == names_resolve(devices@, names@),
{
    let mut i: usize = 0;
    while i < names.len()
        invariant
            i <= names.len(),
            forall|a: int| 0 <= a < i ==> holds_id(devices@, (#[trigger] names@[a]).id),
        decreases names.len() - i,
    {
        if knows(devices, names[i].id).is_none() {
            return false;
        }
        i += 1;
    }
    true
}

fn has_rooms_resolved(devices: &Vec<Entry>, rooms: &Vec<Room>) -> (ok: bool)
    ensures
        ok == rooms_resolve(devices@, rooms@),
{
    let mut i: usize = 0;
    while i < rooms.len()
        invariant
            i <= rooms.len(),
            forall|a: int, k: int|
                0 <= a < i && 0 <= k < rooms@[a].members@.len() ==> holds_id(
                    devices@,
                    #[trigger] rooms@[a].members@[k],
                ),
        decreases rooms.len() - i,
    {
        let members = &rooms[i].members;
        let mut k: usize = 0;
        while k < members.len()
            invariant
                i < rooms.len(),
                members@ == rooms@[i as int].members@,
                k <= members.len(),
                forall|b: int| 0 <= b < k ==> holds_id(devices@, #[trigger] members@[b]),
            decreases members.len() - k,
        {
            if knows(devices, members[k]).is_none() {
                assert(!holds_id(devices@, rooms@[i as int].members@[k as int]));
                return false;
            }
            k += 1;
        }
        i += 1;
    }
    true
}

impl View for State {
    type V = Inventory;

    open spec fn view(&self) -> Inventory {
        Inventory {
            devices: Map::new(
                |id: u64| self.has_device(id),
                |id: u64| self.spec_device(id).unwrap(),
            ),
            rooms: Map::new(
                |name: Seq<char>| self.has_room(name),
                |name: Seq<char>| self.spec_room(name).unwrap(),
            ),
            names: Map::new(
                |name: Seq<char>| self.has_name(name),
                |name: Seq<char>| self.spec_lookup_name(name).unwrap(),
            ),
        }
    }
}

impl State {
    /// The device records, in the order in which they were added.
    pub closed spec fn entries(&self) -> Seq<Entry> {
        self.devices@
    }

    /// The rooms, in the order in which they were first used.
    pub closed spec fn chambers(&self) -> Seq<Room> {
        self.rooms@
    }

    /// The names, in the order in which they were given.
    pub closed spec fn aliases(&self) -> Seq<Alias> {
        self.names@
    }

    /// There is a device under `id`.
    pub open spec fn has_device(&self, id: u64) -> bool {
        holds_id(self.entries(), id)
    }

    /// The device under `id`, if there is one.
    pub open spec fn spec_device(&self, id: u64) -> Option<Device> {
        if self.has_device(id) {
            let i = choose|i: int|
                0 <= i < self.entries().len() && (#[trigger] self.entries()[i]).id == id;
            Some(self.entries()[i].device)
        } else {
            None
        }
    }

    /// `name` stands for a device.
    pub open spec fn has_name(&self, name: Seq<char>) -> bool {
        exists|i: int| 0 <= i < self.aliases().len() && (#[trigger] self.aliases()[i]).name@ == name
    }

    /// The identifier that `name` stands for, if it stands for one.
    pub open spec fn spec_lookup_name(&self, name: Seq<char>) -> Option<u64> {
        if self.has_name(name) {
            let i = choose|i: int|
                0 <= i < self.aliases().len() && (#[trigger] self.aliases()[i]).name@ == name;
            Some(self.aliases()[i].id)
        } else {
            None
        }
    }

    /// There is a room called `name`.
    pub open spec fn has_room(&self, name: Seq<char>) -> bool {
        exists|i: int|
            0 <= i < self.chambers().len() && (#[trigger] self.chambers()[i]).name@ == name
    }

    /// The devices in the room called `name`, if there is such a room.
    pub open spec fn spec_room(&self, name: Seq<char>) -> Option<Seq<u64>> {
        if self.has_room(name) {
            let i = choose|i: int|
                0 <= i < self.chambers().len() && (#[trigger] self.chambers()[i]).name@ == name;
            Some(self.chambers()[i].members@)
        } else {
            None
        }
    }

    /// No identifier and no name occurs twice, and every identifier that a
    /// room or a name refers to has a device.
    pub open spec fn wf(&self) -> bool {
        well_formed(self.entries(), self.chambers(), self.aliases())
    }

    /// In a well-formed inventory every identifier that a name stands for,
    /// and every identifier in a room, has a device.
    pub proof fn lemma_references_resolve(self)
        requires
            self.wf(),
        ensures
            forall|name: Seq<char>|
                self@.names.contains_key(name) ==> self@.devices.contains_key(
                    #[trigger] self@.names[name],
                ),
            forall|room: Seq<char>, k: int|
                self@.rooms.contains_key(room) && 0 <= k < self@.rooms[room].len()
                    ==> self@.devices.contains_key(#[trigger] self@.rooms[room][k]),
    {
        assert forall|name: Seq<char>| self@.names.contains_key(name) implies self@.devices.contains_key(
            #[trigger] self@.names[name],
        ) by {
            let i = choose|i: int|
                0 <= i < self.aliases().len() && (#[trigger] self.aliases()[i]).name@ == name;
            assert(self.has_device(self.aliases()[i].id));
        }
        assert forall|room: Seq<char>, k: int|
            self@.rooms.contains_key(room) && 0 <= k < self@.rooms[room].len()
                implies self@.devices.contains_key(#[trigger] self@.rooms[room][k]) by {
            let i = choose|i: int|
                0 <= i < self.chambers().len() && (#[trigger] self.chambers()[i]).name@ == room;
            assert(self.has_device(self.chambers()[i].members@[k]));
        }
    }

    /// An empty inventory.
    pub fn new() -> (state: State)
        ensures
            state.wf(),
            state.entries().len() == 0,
            state.chambers().len() == 0,
            state.aliases().len() == 0,
            state@.devices =~= Map::empty(),
            state@.rooms =~= Map::empty(),
            state@.names =~= Map::empty(),
    {
        State { devices: Vec::new(), rooms: Vec::new(), names: Vec::new() }
    }

    /// Makes an inventory of the given records, rooms and names, each list
    /// in its order, if they are well-formed together; `None` if an
    /// identifier, a name or a room occurs twice, or a name or a room refers
    /// to a device that is not among the records.
    pub fn from_parts(devices: Vec<Entry>, rooms: Vec<Room>, names: Vec<Alias>) -> (made: Option<
        State,
    >)
        ensures
            made.is_some() == well_formed(devices@, rooms@, names@),
            made matches Some(state) ==> {
                &&& state.wf()
                &&& state.entries() == devices@
                &&& state.chambers() == rooms@
                &&& state.aliases() == names@
            },
    {
        if has_distinct_ids(&devices) && has_distinct_names(&names) && has_distinct_rooms(&rooms)
            && has_names_resolved(&devices, &names) && has_rooms_resolved(&devices, &rooms) {
            Some(State { devices, rooms, names })
        } else {
            None
        }
    }

    /// An inventory made of the records, rooms and names of a well-formed
    /// inventory, each list in its order, is well-formed and holds the same.
    pub proof fn lemma_parts_round_trip(self, rebuilt: State)
        requires
            self.wf(),
            rebuilt.entries() == self.entries(),
            rebuilt.chambers() == self.chambers(),
            rebuilt.aliases() == self.aliases(),
        ensures
            rebuilt.wf(),
            well_formed(self.entries(), self.chambers(), self.aliases()),
            rebuilt@.devices == self@.devices,
            rebuilt@.rooms == self@.rooms,
            rebuilt@.names == self@.names,
    {
        assert(rebuilt@.devices =~= self@.devices);
        assert(rebuilt@.rooms =~= self@.rooms);
        assert(rebuilt@.names =~= self@.names);
    }

    /// The device records, in the order in which they were added.
    pub fn devices(&self) -> (list: &Vec<Entry>)
        ensures
            list@ == self.entries(),
    {
        &self.devices
    }

    /// The rooms, in the order in which they were first used.
    pub fn rooms(&self) -> (list: &Vec<Room>)
        ensures
            list@ == self.chambers(),
    {
        &self.rooms
    }

    /// The names, in the order in which they were given.
    pub fn names(&self) -> (list: &Vec<Alias>)
        ensures
            list@ == self.aliases(),
    {
        &self.names
    }

    fn device_index(&self, id: u64) -> (found: Option<usize>)
        ensures
            match found {
                Some(i) => i < self.entries().len() && self.entries()[i as int].id == id,
                None => !self.has_device(id),
            },
    {
        knows(&self.devices, id)
    }

    fn alias_index(&self, name: &String) -> (found: Option<usize>)
        ensures
            match found {
                Some(i) => i < self.aliases().len() && self.aliases()[i as int].name@ == name@,
                None => !self.has_name(name@),
            },
    {
        let mut i: usize = 0;
        while i < self.names.len()
            invariant
                i <= self.names.len(),
                forall|k: int| 0 <= k < i ==> self.names@[k].name@ != name@,
            decreases self.names.len() - i,
        {
            if self.names[i].name == *name {
                return Some(i);
            }
            i += 1;
        }
        None
    }

    fn room_index(&self, name: &String) -> (found: Option<usize>)
        ensures
            match found {
                Some(i) => i < self.chambers().len() && self.chambers()[i as int].name@ == name@,
                None => !self.has_room(name@),
            },
    {
        let mut i: usize = 0;
        while i < self.rooms.len()
            invariant
                i <= self.rooms.len(),
                forall|k: int| 0 <= k < i ==> self.rooms@[k].name@ != name@,
            decreases self.rooms.len() - i,
        {
            if self.rooms[i].name == *name {
                return Some(i);
            }
            i += 1;
        }
        None
    }

    /// The device under `id`, if there is one.
    pub fn device(&self, id: u64) -> (found: Option<Device>)
        requires
            self.wf(),
        ensures
            found == self.spec_device(id),
            found == if self@.devices.contains_key(id) {
                Some(self@.devices[id])
            } else {
                None
            },
    {
        match self.device_index(id) {
            Some(i) => Some(self.devices[i].device),
            None => None,
        }
    }

    /// The identifier that `name` stands for, if it stands for one.
    pub fn lookup_name(&self, name: &String) -> (found: Option<u64>)
        requires
            self.wf(),
        ensures
            found == self.spec_lookup_name(name@),
            found == if self@.names.contains_key(name@) {
                Some(self@.names[name@])
            } else {
                None
            },
    {
        match self.alias_index(name) {
            Some(i) => Some(self.names[i].id),
            None => None,
        }
    }

    /// The devices in the room called `name`, if there is such a room.
    pub fn room(&self, name: &String) -> (found: Option<&Vec<u64>>)
        requires
            self.wf(),
        ensures
            match found {
                Some(members) => self.spec_room(name@) == Some(members@) && self@.rooms.contains_key(
                    name@,
                ) && self@.rooms[name@] == members@,
                None => self.spec_room(name@).is_none() && !self@.rooms.contains_key(name@),
            },
    {
        match self.room_index(name) {
            Some(i) => Some(&self.rooms[i].members),
            None => None,
        }
    }

    /// A device that `before` has at some position, `after` still has at
    /// that position, under the same identifier.
    spec fn keeps_devices(before: State, after: State) -> bool {
        &&& before.entries().len() <= after.entries().len()
        &&& forall|k: int|
            0 <= k < before.entries().len() ==> (#[trigger] after.entries()[k]).id
                == before.entries()[k].id
    }

    proof fn lemma_device_at(self, i: int)
        requires
            self.wf(),
            0 <= i < self.entries().len(),
        ensures
            self.has_device(self.entries()[i].id),
            self.spec_device(self.entries()[i].id) == Some(self.entries()[i].device),
    {
        let id = self.entries()[i].id;
        let j = choose|j: int|
            0 <= j < self.entries().len() && (#[trigger] self.entries()[j]).id == id;
        assert(j == i);
    }

    proof fn lemma_alias_at(self, i: int)
        requires
            self.wf(),
            0 <= i < self.aliases().len(),
        ensures
            self.has_name(self.aliases()[i].name@),
            self.spec_lookup_name(self.aliases()[i].name@) == Some(self.aliases()[i].id),
    {
        let name = self.aliases()[i].name@;
        let j = choose|j: int|
            0 <= j < self.aliases().len() && (#[trigger] self.aliases()[j]).name@ == name;
        assert(j == i);
    }

    proof fn lemma_room_at(self, i: int)
        requires
            self.wf(),
            0 <= i < self.chambers().len(),
        ensures
            self.has_room(self.chambers()[i].name@),
            self.spec_room(self.chambers()[i].name@) == Some(self.chambers()[i].members@),
    {
        let name = self.chambers()[i].name@;
        let j = choose|j: int|
            0 <= j < self.chambers().len() && (#[trigger] self.chambers()[j]).name@ == name;
        assert(j == i);
    }

    proof fn lemma_keeps_devices(before: State, after: State)
        requires
            Self::keeps_devices(before, after),
        ensures
            forall|id: u64|
                #[trigger] holds_id(before.entries(), id) ==> holds_id(after.entries(), id),
    {
        assert forall|id: u64| #[trigger]
            holds_id(before.entries(), id) implies holds_id(after.entries(), id) by {
            let k = choose|k: int|
                0 <= k < before.entries().len() && (#[trigger] before.entries()[k]).id == id;
            assert(after.entries()[k].id == id);
        }
    }

    /// Adds `device` under `id`, unless there is a device under `id`
    /// already: then nothing changes. Returns whether it was added.
    pub fn add_device(&mut self, id: u64, device: Device) -> (added: bool)
        requires
            old(self).wf(),
        ensures
            final(self).wf(),
            added == !old(self).has_device(id),
            added ==> final(self).entries() == old(self).entries().push((Entry { id, device })),
            added ==> final(self).spec_device(id) == Some(device),
            !added ==> final(self).entries() == old(self).entries(),
            final(self).chambers() == old(self).chambers(),
            final(self).aliases() == old(self).aliases(),
            final(self)@.devices == if added {
                old(self)@.devices.insert(id, device)
            } else {
                old(self)@.devices
            },
            final(self)@.rooms == old(self)@.rooms,
            final(self)@.names == old(self)@.names,
    {
        if self.device_index(id).is_some() {
            return false;
        }
        let ghost before = *self;
        self.devices.push(Entry { id, device });
        proof {
            assert(before.wf());
            assert(self.aliases() == before.aliases());
            assert(self.chambers() == before.chambers());
            let last = before.entries().len() as int;
            assert(self.entries()[last].id == id);
            Self::lemma_keeps_devices(before, *self);
            let i = choose|i: int|
                0 <= i < self.entries().len() && (#[trigger] self.entries()[i]).id == id;
            assert(i == last);
            assert forall|x: u64| x != id && self.has_device(x) implies before.has_device(x)
                && before.spec_device(x) == self.spec_device(x) by {
                let j = choose|j: int|
                    0 <= j < self.entries().len() && (#[trigger] self.entries()[j]).id == x;
                assert(before.entries()[j].id == x);
                before.lemma_device_at(j);
                self.lemma_device_at(j);
            }
            assert(self@.devices =~= before@.devices.insert(id, device));
            assert(self@.rooms =~= before@.rooms);
            assert(self@.names =~= before@.names);
        }
        true
    }

    /// Puts `device` in the place of the device under `id`. Without a
    /// device under `id` nothing changes. Returns whether it was replaced.
    pub fn set_device(&mut self, id: u64, device: Device) -> (replaced: bool)
        requires
            old(self).wf(),
        ensures
            final(self).wf(),
            replaced == old(self).has_device(id),
            replaced ==> final(self).spec_device(id) == Some(device),
            final(self)@.devices == if replaced {
                old(self)@.devices.insert(id, device)
            } else {
                old(self)@.devices
            },
            final(self)@.rooms == old(self)@.rooms,
            final(self)@.names == old(self)@.names,
            final(self).entries().len() == old(self).entries().len(),
            forall|k: int|
                0 <= k < old(self).entries().len() ==> (#[trigger] final(self).entries()[k])
                    == (if old(self).entries()[k].id == id {
                    Entry { id, device }
                } else {
                    old(self).entries()[k]
                }),
            final(self).chambers() == old(self).chambers(),
            final(self).aliases() == old(self).aliases(),
    {
        let ghost before = *self;
        match self.device_index(id) {
            Some(i) => {
                self.devices.set(i, Entry { id, device });
                proof {
                    assert(before.wf());
                    assert(self.aliases() == before.aliases());
                    assert(self.chambers() == before.chambers());
                    Self::lemma_keeps_devices(before, *self);
                    assert(self.entries()[i as int].id == id);
                    let j = choose|j: int|
                        0 <= j < self.entries().len() && (#[trigger] self.entries()[j]).id == id;
                    assert(j == i);
                    assert forall|x: u64| x != id && self.has_device(x) implies before.has_device(
                        x,
                    ) && before.spec_device(x) == self.spec_device(x) by {
                        let k = choose|k: int|
                            0 <= k < self.entries().len() && (#[trigger] self.entries()[k]).id == x;
                        assert(before.entries()[k].id == x);
                        before.lemma_device_at(k);
                        self.lemma_device_at(k);
                    }
                    assert(before.has_device(id));
                    assert(self@.devices =~= before@.devices.insert(id, device));
                    assert(self@.rooms =~= before@.rooms);
                    assert(self@.names =~= before@.names);
                }
                true
            },
            None => false,
        }
    }

    /// Lets `name` stand for the device under `id`. Without a device under
    /// `id`, or with `name` standing for a device already, nothing changes.
    /// Returns whether the name was given.
    pub fn name_device(&mut self, name: String, id: u64) -> (named: bool)
        requires
            old(self).wf(),
        ensures
            final(self).wf(),
            named == (old(self).has_device(id) && !old(self).has_name(name@)),
            named ==> final(self).aliases() == old(self).aliases().push((Alias { name, id })),
            named ==> final(self).spec_lookup_name(name@) == Some(id),
            final(self)@.names == if named {
                old(self)@.names.insert(name@, id)
            } else {
                old(self)@.names
            },
            final(self)@.devices == old(self)@.devices,
            final(self)@.rooms == old(self)@.rooms,
            !named ==> final(self).aliases() == old(self).aliases(),
            final(self).entries() == old(self).entries(),
            final(self).chambers() == old(self).chambers(),
    {
        if self.device_index(id).is_none() {
            return false;
        }
        if self.alias_index(&name).is_some() {
            return false;
        }
        let ghost before = *self;
        let ghost text = name@;
        self.names.push(Alias { name, id });
        proof {
            assert(before.wf());
            assert(self.entries() == before.entries());
            assert(self.chambers() == before.chambers());
            let last = before.aliases().len() as int;
            assert(self.aliases()[last].name@ == text);
            Self::lemma_keeps_devices(before, *self);
            let i = choose|i: int|
                0 <= i < self.aliases().len() && (#[trigger] self.aliases()[i]).name@ == text;
            assert(i == last);
            assert forall|x: Seq<char>| x != text && self.has_name(x) implies before.has_name(x)
                && before.spec_lookup_name(x) == self.spec_lookup_name(x) by {
                let j = choose|j: int|
                    0 <= j < self.aliases().len() && (#[trigger] self.aliases()[j]).name@ == x;
                assert(before.aliases()[j].name@ == x);
                before.lemma_alias_at(j);
                self.lemma_alias_at(j);
            }
            assert forall|x: Seq<char>| before.has_name(x) implies self.has_name(x) by {
                let j = choose|j: int|
                    0 <= j < before.aliases().len() && (#[trigger] before.aliases()[j]).name@ == x;
                assert(self.aliases()[j].name@ == x);
            }
            assert(self@.names =~= before@.names.insert(text, id));
            assert(self@.devices =~= before@.devices);
            assert(self@.rooms =~= before@.rooms);
        }
        true
    }

    /// Puts the device under `id` into the room called `room`, behind the
    /// devices that are in it; a room that is not there yet is made.
    /// Without a device under `id` nothing changes. Returns whether the
    /// device was placed.
    pub fn place(&mut self, room: String, id: u64) -> (placed: bool)
        requires
            old(self).wf(),
        ensures
            final(self).wf(),
            placed == old(self).has_device(id),
            placed ==> final(self).spec_room(room@) == Some(
                match old(self).spec_room(room@) {
                    Some(members) => members.push(id),
                    None => seq![id],
                },
            ),
            final(self)@.rooms == if placed {
                old(self)@.rooms.insert(
                    room@,
                    (if old(self)@.rooms.contains_key(room@) {
                        old(self)@.rooms[room@]
                    } else {
                        Seq::empty()
                    }).push(id),
                )
            } else {
                old(self)@.rooms
            },
            final(self)@.devices == old(self)@.devices,
            final(self)@.names == old(self)@.names,
            !placed ==> final(self).chambers() == old(self).chambers(),
            placed && !old(self).has_room(room@) ==> final(self).chambers().drop_last() == old(
                self,
            ).chambers(),
            placed && old(self).has_room(room@) ==> final(self).chambers().len() == old(
                self,
            ).chambers().len() && forall|k: int|
                0 <= k < old(self).chambers().len() && old(self).chambers()[k].name@ != room@
                    ==> (#[trigger] final(self).chambers()[k]) == old(self).chambers()[k],
            final(self).entries() == old(self).entries(),
            final(self).aliases() == old(self).aliases(),
    {
        if self.device_index(id).is_none() {
            return false;
        }
        let ghost before = *self;
        let ghost text = room@;
        match self.room_index(&room) {
            Some(i) => {
                let mut chamber = self.rooms.remove(i);
                let ghost taken = chamber;
                chamber.members.push(id);
                self.rooms.insert(i, chamber);
                proof {
                    assert(before.wf());
                    assert(self.entries() == before.entries());
                    assert(self.aliases() == before.aliases());
                    Self::lemma_keeps_devices(before, *self);
                    assert(self.chambers().len() == before.chambers().len());
                    assert forall|k: int| 0 <= k < before.chambers().len() implies (
                    #[trigger] self.chambers()[k]).name@ == before.chambers()[k].name@ by {}
                    assert forall|k: int|
                        0 <= k < before.chambers().len() && k != i implies (
                    #[trigger] self.chambers()[k]) == before.chambers()[k] by {}
                    assert(self.chambers()[i as int].members@ == taken.members@.push(id));
                    assert(self.chambers()[i as int].name@ == text);
                    let j = choose|j: int|
                        0 <= j < self.chambers().len() && (#[trigger] self.chambers()[j]).name@
                            == text;
                    assert(j == i);
                    let b = choose|b: int|
                        0 <= b < before.chambers().len() && (#[trigger] before.chambers()[b]).name@
                            == text;
                    assert(before.chambers()[i as int].name@ == text);
                    assert(b == i);
                    assert forall|x: Seq<char>| x != text implies (self.has_room(x)
                        <==> before.has_room(x)) && (self.has_room(x) ==> before.spec_room(x)
                        == self.spec_room(x)) by {
                        if self.has_room(x) {
                            let k = choose|k: int|
                                0 <= k < self.chambers().len() && (
                                #[trigger] self.chambers()[k]).name@ == x;
                            assert(before.chambers()[k].name@ == x);
                            before.lemma_room_at(k);
                            self.lemma_room_at(k);
                        }
                        if before.has_room(x) {
                            let k = choose|k: int|
                                0 <= k < before.chambers().len() && (
                                #[trigger] before.chambers()[k]).name@ == x;
                            assert(self.chambers()[k].name@ == x);
                        }
                    }
                    assert(self@.rooms =~= before@.rooms.insert(
                        text,
                        before@.rooms[text].push(id),
                    ));
                    assert(self@.devices =~= before@.devices);
                    assert(self@.names =~= before@.names);
                }
            },
            None => {
                let mut members: Vec<u64> = Vec::new();
                members.push(id);
                self.rooms.push(Room { name: room, members });
                proof {
                    assert(before.wf());
                    assert(self.entries() == before.entries());
                    assert(self.aliases() == before.aliases());
                    let last = before.chambers().len() as int;
                    Self::lemma_keeps_devices(before, *self);
                    assert(self.chambers()[last].name@ == text);
                    assert(self.chambers()[last].members@ == seq![id]);
                    assert(self.chambers().drop_last() == before.chambers());
                    let j = choose|j: int|
                        0 <= j < self.chambers().len() && (#[trigger] self.chambers()[j]).name@
                            == text;
                    assert(j == last);
                    assert forall|x: Seq<char>| x != text implies (self.has_room(x)
                        <==> before.has_room(x)) && (self.has_room(x) ==> before.spec_room(x)
                        == self.spec_room(x)) by {
                        if self.has_room(x) {
                            let k = choose|k: int|
                                0 <= k < self.chambers().len() && (
                                #[trigger] self.chambers()[k]).name@ == x;
                            assert(before.chambers()[k].name@ == x);
                            before.lemma_room_at(k);
                            self.lemma_room_at(k);
                        }
                        if before.has_room(x) {
                            let k = choose|k: int|
                                0 <= k < before.chambers().len() && (
                                #[trigger] before.chambers()[k]).name@ == x;
                            assert(self.chambers()[k].name@ == x);
                        }
                    }
                    assert(Seq::<u64>::empty().push(id) =~= seq![id]);
                    assert(self@.rooms =~= before@.rooms.insert(
                        text,
                        Seq::<u64>::empty().push(id),
                    ));
                    assert(self@.devices =~= before@.devices);
                    assert(self@.names =~= before@.names);
                }
            },
        }
        true
    }
}

} // verus!
