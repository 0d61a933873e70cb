//! The microphone list, discovered off the UI path with at most one scan at
//! a time. The application runs the scan on a thread of its own and reports
//! its outcome here.

use vstd::prelude::*;
use crate::text::{str_eq, strs};

verus! {

/// The last discovered input devices and whether a scan is running.
pub struct InputDeviceCache {
    devices: Vec<String>,
    scanning: bool,
}

/// Whether two lists of names are equal.
pub fn same_names(a: &[String], b: &[String]) -> (r: bool)
    ensures
        r == (strs(a@) == strs(b@)),
{
    if a.len() != b.len() {
        assert(strs(a@).len() != strs(b@).len());
        return false;
    }
    let mut i: usize = 0;
    while i < a.len()
        invariant
            a@.len() == b@.len(),
            i <= a@.len(),
            forall|k: int| 0 <= k < i ==> a@[k]@ == b@[k]@,
        decreases a@.len() - i,
    {
        if !str_eq(a[i].as_str(), b[i].as_str()) {
            assert(strs(a@)[i as int] != strs(b@)[i as int]);
            return false;
        }
        i = i + 1;
    }
    assert(strs(a@) =~= strs(b@));
    true
}

impl InputDeviceCache {
    /// No devices known, no scan running.
    pub fn new() -> (c: Self)
        ensures
            c.devices().len() == 0,
            !c.scanning(),
    {
        InputDeviceCache { devices: Vec::new(), scanning: false }
    }

    /// The known device names.
    pub closed spec fn devices(self) -> Seq<Seq<char>> {
        strs(self.devices@)
    }

    /// Whether a scan is running.
    pub closed spec fn scanning(self) -> bool {
        self.scanning
    }

    /// The device names as last discovered.
    pub fn snapshot(&self) -> (v: Vec<String>)
        ensures
            strs(v@) == self.devices(),
    {
        let mut v: Vec<String> = Vec::new();
        let mut i: usize = 0;
        while i < self.devices.len()
            invariant
                i <= self.devices@.len(),
                strs(v@) == strs(self.devices@).take(i as int),
            decreases self.devices@.len() - i,
        {
            let ghost before = strs(v@);
            v.push(self.devices[i].clone());
            assert(strs(v@) =~= before.push(self.devices@[i as int]@));
            assert(strs(self.devices@).take(i + 1) =~= strs(self.devices@).take(i as int).push(self.devices@[i as int]@));
            i = i + 1;
        }
        assert(strs(self.devices@).take(self.devices@.len() as int) =~= strs(self.devices@));
        v
    }

    /// Claim the scan: refused while one is running, so there is never more
    /// than one.
    pub fn begin_scan(&mut self) -> (started: bool)
        ensures
            started == !old(self).scanning(),
            final(self).scanning(),
            final(self).devices() == old(self).devices(),
    {
        if self.scanning {
            return false;
        }
        self.scanning = true;
        true
    }

    /// The scan could not be started: release the claim.
    pub fn abort_scan(&mut self)
        ensures
            !final(self).scanning(),
            final(self).devices() == old(self).devices(),
    {
        self.scanning = false;
    }

    /// Record a finished scan (`None` when discovery failed). A list that
    /// differs from the known one replaces it and is returned for
    /// announcement; an unchanged list or a failure announces nothing.
    pub fn finish_scan(&mut self, found: Option<Vec<String>>) -> (changed: Option<Vec<String>>)
        ensures
            !final(self).scanning(),
            match found {
                Some(d) => if strs(d@) != old(self).devices() {
                    final(self).devices() == strs(d@) && (changed matches Some(c) && strs(c@) == strs(d@))
                } else {
                    final(self).devices() == old(self).devices() && changed is None
                },
                None => final(self).devices() == old(self).devices() && changed is None,
            },
    {
        self.scanning = false;
        match found {
            Some(devices) => {
                if same_names(devices.as_slice(), self.devices.as_slice()) {
                    None
                } else {
                    let announced = self.copy_of(&devices);
                    self.devices = devices;
                    Some(announced)
                }
            },
            None => None,
        }
    }

    fn copy_of(&self, d: &Vec<String>) -> (c: Vec<String>)
        ensures
            strs(c@) == strs(d@),
    {
        let mut v: Vec<String> = Vec::new();
        let mut i: usize = 0;
        while i < d.len()
            invariant
                i <= d@.len(),
                strs(v@) == strs(d@).take(i as int),
            decreases d@.len() - i,
        {
            let ghost before = strs(v@);
            v.push(d[i].clone());
            assert(strs(v@) =~= before.push(d@[i as int]@));
            assert(strs(d@).take(i + 1) =~= strs(d@).take(i as int).push(d@[i as int]@));
            i = i + 1;
        }
        assert(strs(d@).take(d@.len() as int) =~= strs(d@));
        v
    }
}

} // verus!
