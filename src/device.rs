use vstd::prelude::*;
use crate::text::str_eq;

verus! {

/// The search target that asks for every device.
pub const SEARCH_ALL: &'static str = "ssdp:all";

/// A device that this host advertises.
#[derive(Debug, Clone)]
pub struct Device {
    /// Unique service name.
    pub usn: String,
    /// Search target, announced as the notification type.
    pub st: String,
    /// Where the device's description lies.
    pub location: String,
    /// How long, in seconds, peers may cache the announcement.
    pub max_age: u32,
    /// Identification of the serving software.
    pub server: String,
}

/// A device as plain values.
pub struct DeviceView {
    pub usn: Seq<char>,
    pub st: Seq<char>,
    pub location: Seq<char>,
    pub max_age: u32,
    pub server: Seq<char>,
}

impl View for Device {
    type V = DeviceView;

    open spec fn view(&self) -> DeviceView {
        DeviceView {
            usn: self.usn@,
            st: self.st@,
            location: self.location@,
            max_age: self.max_age,
            server: self.server@,
        }
    }
}

impl Device {
    pub fn new(usn: String, st: String, location: String, max_age: u32, server: String) -> (r: Device)
        ensures
            r@ == (DeviceView { usn: usn@, st: st@, location: location@, max_age, server: server@ }),
    {
        Device { usn, st, location, max_age, server }
    }

    /// A copy of the device.
    pub fn duplicate(&self) -> (r: Device)
        ensures
            r@ == self@,
    {
        Device {
            usn: self.usn.clone(),
            st: self.st.clone(),
            location: self.location.clone(),
            max_age: self.max_age,
            server: self.server.clone(),
        }
    }
}

/// Why a registration was refused.
#[derive(Debug, PartialEq, Eq)]
pub enum RegistryError {
    /// A device with the same unique service name is registered already.
    DuplicateUSN,
}

/// No two devices share a unique service name.
pub open spec fn unique_usns(ds: Seq<DeviceView>) -> bool {
    forall|i: int, j: int| 0 <= i < ds.len() && 0 <= j < ds.len() && i != j ==> ds[i].usn != ds[j].usn
}

/// Some device has the unique service name `usn`.
pub open spec fn has_usn(ds: Seq<DeviceView>, usn: Seq<char>) -> bool {
    exists|i: int| 0 <= i < ds.len() && #[trigger] ds[i].usn == usn
}

/// A device answers a search for `st`.
pub open spec fn answers(d: DeviceView, st: Seq<char>) -> bool {
    st == SEARCH_ALL@ || d.st == st
}

/// The devices of `ds` that answer a search for `st`, in order.
pub open spec fn matching(ds: Seq<DeviceView>, st: Seq<char>) -> Seq<DeviceView> {
    ds.filter(answers_to(st))
}

/// The test `answers(_, st)` as a predicate.
pub open spec fn answers_to(st: Seq<char>) -> spec_fn(DeviceView) -> bool {
    |d: DeviceView| answers(d, st)
}

pub open spec fn device_views(ds: Seq<Device>) -> Seq<DeviceView> {
    ds.map_values(|d: Device| d@)
}

/// Once a device is registered, a second device with the same unique service
/// name is refused, and the registry keeps only the first.
pub proof fn lemma_duplicate_usn_refused(first: DeviceView, second: DeviceView)
    requires
        first.usn == second.usn,
    ensures
        has_usn(seq![first], second.usn),
        unique_usns(seq![first]),
{
    assert(seq![first][0].usn == second.usn);
}

/// A search for `st` finds exactly the devices whose search target is `st`,
/// and every device for the wildcard; each as often as it is registered.
pub proof fn lemma_matching_exact(ds: Seq<DeviceView>, st: Seq<char>)
    ensures
        forall|d: DeviceView| #[trigger] matching(ds, st).contains(d) <==> ds.contains(d) && (
        d.st == st || st == SEARCH_ALL@),
        st == SEARCH_ALL@ ==> matching(ds, st) == ds,
    decreases ds.len(),
{
    broadcast use vstd::seq_lib::group_filter_ensures;

    assert forall|d: DeviceView| #[trigger] matching(ds, st).contains(d) <==> ds.contains(d) && (
    d.st == st || st == SEARCH_ALL@) by {
        if ds.contains(d) && answers(d, st) {
            assert(answers_to(st)(d));
            let i = choose|i: int| 0 <= i < ds.len() && ds[i] == d;
            ds.lemma_filter_contains(answers_to(st), i);
        }
        if matching(ds, st).contains(d) {
            let f = ds.filter(answers_to(st));
            let i = choose|i: int| 0 <= i < f.len() && f[i] == d;
            ds.lemma_filter_pred(answers_to(st), i);
            ds.lemma_filter_contains_rev(answers_to(st), d);
            assert(answers_to(st)(d));
        }
    }
    if st == SEARCH_ALL@ && ds.len() > 0 {
        lemma_matching_exact(ds.drop_last(), st);
        assert(ds =~= ds.drop_last().push(ds.last()));
        ds.drop_last().lemma_filter_push(ds.last(), answers_to(st));
    }
    if ds.len() == 0 {
        reveal(Seq::filter);
    }
}

/// The devices that this host advertises, keyed by unique service name.
pub struct Registry {
    devices: Vec<Device>,
}

impl View for Registry {
    type V = Seq<DeviceView>;

    closed spec fn view(&self) -> Seq<DeviceView> {
        device_views(self.devices@)
    }
}

impl Registry {
    /// Unique service names are unique.
    pub open spec fn wf(&self) -> bool {
        unique_usns(self@)
    }

    pub fn new() -> (r: Registry)
        ensures
            r.wf(),
            r@.len() == 0,
    {
        let r = Registry { devices: Vec::new() };
        assert(r@ =~= Seq::<DeviceView>::empty());
        r
    }

    pub fn len(&self) -> (r: usize)
        ensures
            r == self@.len(),
    {
        self.devices.len()
    }

    /// The device at `i`, in order of registration.
    pub fn get(&self, i: usize) -> (r: &Device)
        requires
            i < self@.len(),
        ensures
            r@ == self@[i as int],
    {
        &self.devices[i]
    }

    /// The position of the device with unique service name `usn`, if any.
    pub fn position(&self, usn: &str) -> (r: Option<usize>)
        ensures
            r matches Some(i) ==> i < self@.len() && self@[i as int].usn == usn@,
            r is None <==> !has_usn(self@, usn@),
    {
        let mut i: usize = 0;
        while i < self.devices.len()
            invariant
                i <= self@.len(),
                forall|j: int| 0 <= j < i ==> self@[j].usn != usn@,
            decreases self@.len() - i,
        {
            if str_eq(self.devices[i].usn.as_str(), usn) {
                assert(self@[i as int].usn == usn@);
                return Some(i);
            }
            i = i + 1;
        }
        None
    }

    /// Adds a device, unless one with the same unique service name is there.
    pub fn register(&mut self, device: Device) -> (r: Result<(), RegistryError>)
        requires
            old(self).wf(),
        ensures
            final(self).wf(),
            r is Err <==> has_usn(old(self)@, device@.usn),
            r is Err ==> r == Err::<(), RegistryError>(RegistryError::DuplicateUSN) && final(self)@ == old(self)@,
            r is Ok ==> final(self)@ == old(self)@.push(device@),
    {
        match self.position(device.usn.as_str()) {
            Some(_) => Err(RegistryError::DuplicateUSN),
            None => {
                let ghost d = device@;
                self.devices.push(device);
                assert(self@ =~= old(self)@.push(d));
                Ok(())
            },
        }
    }

    /// Removes the device with unique service name `usn`; nothing happens when
    /// there is none.
    pub fn deregister(&mut self, usn: &str)
        requires
            old(self).wf(),
        ensures
            final(self).wf(),
            !has_usn(final(self)@, usn@),
            !has_usn(old(self)@, usn@) ==> final(self)@ == old(self)@,
            has_usn(old(self)@, usn@) ==> exists|i: int|
                0 <= i < old(self)@.len() && old(self)@[i].usn == usn@ && final(self)@ == old(self)@.remove(i),
    {
        match self.position(usn) {
            None => {},
            Some(i) => {
                self.devices.remove(i);
                assert(self@ =~= old(self)@.remove(i as int));
                assert(old(self)@[i as int].usn == usn@);
                assert forall|j: int| 0 <= j < self@.len() implies self@[j].usn != usn@ by {
                    if j < i {
                        assert(self@[j] == old(self)@[j]);
                    } else {
                        assert(self@[j] == old(self)@[j + 1]);
                    }
                }
            },
        }
    }

    /// Removes every device.
    pub fn clear(&mut self)
        ensures
            final(self).wf(),
            final(self)@.len() == 0,
    {
        self.devices.clear();
        assert(self@ =~= Seq::<DeviceView>::empty());
    }

    /// Copies of the devices that answer a search for `st`: those whose search
    /// target is `st`, or all when `st` is the wildcard.
    pub fn find_matching(&self, st: &str) -> (r: Vec<Device>)
        ensures
            device_views(r@) == matching(self@, st@),
    {
        let all = str_eq(st, SEARCH_ALL);
        let mut out: Vec<Device> = Vec::new();
        let mut i: usize = 0;
        while i < self.devices.len()
            invariant
                i <= self@.len(),
                all == (st@ == SEARCH_ALL@),
                device_views(out@) == matching(self@.take(i as int), st@),
            decreases self@.len() - i,
        {
            let ghost before = out@;
            proof {
                assert(self@.take(i + 1) =~= self@.take(i as int).push(self@[i as int]));
                self@.take(i as int).lemma_filter_push(self@[i as int], answers_to(st@));
                assert(self@[i as int] == self.devices@[i as int]@);
            }
            if all || str_eq(self.devices[i].st.as_str(), st) {
                out.push(self.devices[i].duplicate());
                assert(device_views(out@) =~= device_views(before).push(self@[i as int]));
            }
            i = i + 1;
        }
        assert(self@.take(i as int) =~= self@);
        out
    }
}

} // verus!
