//! Decisions on the list of output devices.

use vstd::prelude::*;

verus! {

/// The device names of a roster.
pub open spec fn names(roster: Seq<String>) -> Seq<Seq<char>> {
    roster.map_values(|s: String| s@)
}

/// Index of the first device called `name`, if any.
pub open spec fn position_of(roster: Seq<Seq<char>>, name: Seq<char>) -> Option<usize> {
    if exists|i: int| 0 <= i < roster.len() && roster[i] == name {
        let i = choose|i: int|
            0 <= i < roster.len() && roster[i] == name && forall|j: int|
                0 <= j < i ==> roster[j] != name;
        Some(i as usize)
    } else {
        None
    }
}

/// Why an output device could not be selected.
#[derive(Debug, Clone, Copy, PartialEq, Eq, Structural)]
pub enum ConnectError {
    /// No device of that name is in the roster.
    DeviceNotFound,
    /// The device is there but the connection could not be opened.
    ConnectFailed,
}

/// Index of the device to connect to for `name`, or `DeviceNotFound`.
pub fn port_for(roster: &Vec<String>, name: &String) -> (r: Result<usize, ConnectError>)
    ensures
        match position_of(names(roster@), name@) {
            Some(i) => r == Ok::<usize, ConnectError>(i),
            None => r == Err::<usize, ConnectError>(ConnectError::DeviceNotFound),
        },
{
    match find_device(roster, name) {
        Some(i) => Ok(i),
        None => Err(ConnectError::DeviceNotFound),
    }
}

/// Whether a fresh scan differs from the previous one.
pub fn roster_changed(previous: &Vec<String>, current: &Vec<String>) -> (r: bool)
    ensures
        r == (names(previous@) != names(current@)),
{
    if previous.len() != current.len() {
        assert(names(previous@).len() != names(current@).len());
        return true;
    }
    let mut i: usize = 0;
    while i < previous.len()
        invariant
            previous@.len() == current@.len(),
            i <= previous@.len(),
            forall|k: int| 0 <= k < i ==> previous@[k]@ == current@[k]@,
        decreases previous@.len() - i,
    {
        if previous[i] != current[i] {
            assert(names(previous@)[i as int] != names(current@)[i as int]);
            return true;
        }
        i = i + 1;
    }
    assert(names(previous@) =~= names(current@));
    false
}

/// Index of the first device of the roster called `name`.
pub fn find_device(roster: &Vec<String>, name: &String) -> (r: Option<usize>)
    ensures
        r == position_of(names(roster@), name@),
{
    let ghost ns = names(roster@);
    let mut i: usize = 0;
    while i < roster.len()
        invariant
            i <= roster@.len(),
            ns == names(roster@),
            forall|k: int| 0 <= k < i ==> ns[k] != name@,
        decreases roster@.len() - i,
    {
        if roster[i] == *name {
            assert(ns[i as int] == name@);
            let ghost c = choose|c: int|
                0 <= c < ns.len() && ns[c] == name@ && forall|j: int| 0 <= j < c ==> ns[j] != name@;
            assert(0 <= i < ns.len() && ns[i as int] == name@ && forall|j: int|
                0 <= j < i ==> ns[j] != name@);
            assert(c == i) by {
                if c < i {
                    assert(ns[c] != name@);
                } else if c > i {
                    assert(ns[i as int] != name@);
                }
            }
            return Some(i);
        }
        i = i + 1;
    }
    None
}

/// The device to select again after a scan: the stored selection when the
/// roster changed, since its connection may be stale; none otherwise.
pub fn device_to_reselect(ports_changed: bool, selected: &Option<String>) -> (r: Option<String>)
    ensures
        r == if ports_changed {
            *selected
        } else {
            None::<String>
        },
{
    if ports_changed {
        match selected {
            Some(name) => Some(name.clone()),
            None => None,
        }
    } else {
        None
    }
}

/// Index of the entry to show as chosen: that of the selected device when it
/// is in the roster, else the first.
pub fn selected_index(roster: &Vec<String>, selected: &Option<String>) -> (r: usize)
    ensures
        r == match *selected {
            Some(name) => match position_of(names(roster@), name@) {
                Some(i) => i,
                None => 0,
            },
            None => 0,
        },
{
    match selected {
        Some(name) => match find_device(roster, name) {
            Some(i) => i,
            None => 0,
        },
        None => 0,
    }
}

} // verus!
