use vstd::prelude::*;

verus! {

/// `std::io::Error`, carried through unread.
#[verifier::external_type_specification]
#[verifier::external_body]
pub struct ExIoError(std::io::Error);

/// Why a grab process could not be started or kept.
#[derive(Debug)]
pub enum CommandError {
    /// The grab process could not be spawned.
    Io(std::io::Error),
    /// The grab process failed, with its diagnostic output.
    Failed { stderr: String },
}

/// One input device of the system, as the device registry lists it.
#[derive(Debug, Clone)]
pub struct Device {
    pub event_path: String,
    pub name: String,
}

/// The devices whose name is exactly `name`.
pub open spec fn named(devices: Seq<Device>, name: Seq<char>) -> Seq<Device> {
    devices.filter(|d: Device| d.name@ == name)
}

/// Picks, in registry order, the devices whose name is exactly `name`.
pub fn find_event(devices: Vec<Device>, name: &str) -> (r: Vec<Device>)
    ensures
        r@ == named(devices@, name@),
{
    let ghost all = devices@;
    let wanted = name.to_owned();
    let mut rest = devices;
    let mut r: Vec<Device> = Vec::new();
    let mut i: usize = 0;
    let n = rest.len();
    while i < n
        invariant
            n == all.len(),
            i <= n,
            rest@ == all.skip(i as int),
            r@ == named(all.take(i as int), name@),
            wanted@ == name@,
        decreases n - i,
    {
        proof {
            reveal(Seq::filter);
        }
        assert(all.take(i + 1).drop_last() =~= all.take(i as int));
        let d = rest.remove(0);
        assert(d == all[i as int]);
        if d.name == wanted {
            r.push(d);
        }
        i = i + 1;
        assert(rest@ =~= all.skip(i as int));
    }
    assert(all.take(n as int) =~= all);
    r
}

} // verus!
