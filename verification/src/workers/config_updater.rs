//! Which devices a new configuration adds, removes and keeps.

use crate::config::Device;
use vstd::prelude::*;

verus! {

/// The identifiers of `devices`, in order.
pub open spec fn ids_of(devices: Seq<Device>) -> Seq<Seq<char>> {
    devices.map_values(|d: Device| d.id@)
}

/// The text of each string of `v`.
pub open spec fn texts(v: Seq<String>) -> Seq<Seq<char>> {
    v.map_values(|s: String| s@)
}

/// The devices that a configuration change adds, removes and keeps, each
/// identifier listed once.
#[derive(Debug)]
pub struct ConfigUpdateSummary {
    pub added: Vec<String>,
    pub removed: Vec<String>,
    pub unchanged: Vec<String>,
}

fn has_id(devices: &[Device], id: &String) -> (b: bool)
    ensures
        b == ids_of(devices@).contains(id@),
{
    let mut i: usize = 0;
    while i < devices.len()
        invariant
            i <= devices@.len(),
            forall|j: int| 0 <= j < i ==> devices@[j].id@ != id@,
        decreases devices.len() - i,
    {
        if devices[i].id == *id {
            assert(ids_of(devices@)[i as int] == id@);
            return true;
        }
        i = i + 1;
    }
    assert(!ids_of(devices@).contains(id@)) by {
        if ids_of(devices@).contains(id@) {
            let j = choose|j: int| 0 <= j < ids_of(devices@).len() && ids_of(devices@)[j] == id@;
            assert(devices@[j].id@ == id@);
        }
    }
    false
}

fn has_text(v: &Vec<String>, id: &String) -> (b: bool)
    ensures
        b == texts(v@).contains(id@),
{
    let mut i: usize = 0;
    while i < v.len()
        invariant
            i <= v@.len(),
            forall|j: int| 0 <= j < i ==> v@[j]@ != id@,
        decreases v.len() - i,
    {
        if v[i] == *id {
            assert(texts(v@)[i as int] == id@);
            return true;
        }
        i = i + 1;
    }
    assert(!texts(v@).contains(id@)) by {
        if texts(v@).contains(id@) {
            let j = choose|j: int| 0 <= j < texts(v@).len() && texts(v@)[j] == id@;
            assert(v@[j]@ == id@);
        }
    }
    false
}

/// The identifiers of `from` for which `keep` says whether `other` has them
/// too, each once, in the order they first appear in `from`.
fn select_ids(from: &[Device], other: &[Device], present: bool) -> (r: Vec<String>)
    ensures
        texts(r@).no_duplicates(),
        forall|x: Seq<char>|
            texts(r@).contains(x) <==> (ids_of(from@).contains(x) && ids_of(other@).contains(x)
                == present),
{
    let mut out: Vec<String> = Vec::new();
    let mut i: usize = 0;
    while i < from.len()
        invariant
            i <= from@.len(),
            texts(out@).no_duplicates(),
            forall|x: Seq<char>|
                texts(out@).contains(x) <==> (ids_of(from@.take(i as int)).contains(x) && ids_of(
                    other@,
                ).contains(x) == present),
        decreases from.len() - i,
    {
        let id = &from[i].id;
        let ghost before = out@;
        let ghost longer = ids_of(from@.take(i + 1));
        let ghost shorter = ids_of(from@.take(i as int));
        assert forall|x: Seq<char>| longer.contains(x) <==> (shorter.contains(x) || x == id@) by {
            if longer.contains(x) {
                let j = choose|j: int| 0 <= j < longer.len() && longer[j] == x;
                if j < i {
                    assert(shorter[j] == x);
                }
            }
            if shorter.contains(x) {
                let j = choose|j: int| 0 <= j < shorter.len() && shorter[j] == x;
                assert(longer[j] == x);
            }
            if x == id@ {
                assert(longer[i as int] == x);
            }
        }
        let in_other = has_id(other, id);
        let seen = has_text(&out, id);
        if in_other == present && !seen {
            let copy = id.clone();
            out.push(copy);
            assert(texts(out@) =~= texts(before).push(id@));
            assert forall|x: Seq<char>| texts(out@).contains(x) <==> (texts(before).contains(x)
                || x == id@) by {
                if texts(out@).contains(x) {
                    let j = choose|j: int| 0 <= j < texts(out@).len() && texts(out@)[j] == x;
                    if j < before.len() {
                        assert(texts(before)[j] == x);
                    }
                }
                if texts(before).contains(x) {
                    let j = choose|j: int| 0 <= j < texts(before).len() && texts(before)[j] == x;
                    assert(texts(out@)[j] == x);
                }
                if x == id@ {
                    assert(texts(out@)[before.len() as int] == x);
                }
            }
            assert forall|a: int, b: int|
                0 <= a < texts(out@).len() && 0 <= b < texts(out@).len() && a != b implies texts(
                out@,
            )[a] != texts(out@)[b] by {
                if a == before.len() {
                    assert(texts(before).contains(texts(before)[b]));
                } else if b == before.len() {
                    assert(texts(before).contains(texts(before)[a]));
                }
            }
        }
        assert forall|x: Seq<char>|
            texts(out@).contains(x) <==> (longer.contains(x) && ids_of(other@).contains(x)
                == present) by {
            assert(longer.contains(x) == (shorter.contains(x) || x == id@));
            if in_other == present && !seen {
                assert(texts(out@).contains(x) == (texts(before).contains(x) || x == id@));
            } else {
                assert(out@ == before);
                if x == id@ {
                    if seen {
                        assert(texts(before).contains(x));
                    }
                }
            }
        }
        i = i + 1;
    }
    assert(from@.take(i as int) =~= from@);
    out
}

/// Compares the devices of the old and the new configuration: those only in
/// the new one are added, those only in the old one removed, those in both
/// kept.
pub fn device_changes(old_devices: &[Device], new_devices: &[Device]) -> (r: ConfigUpdateSummary)
    ensures
        texts(r.added@).no_duplicates(),
        texts(r.removed@).no_duplicates(),
        texts(r.unchanged@).no_duplicates(),
        forall|x: Seq<char>|
            texts(r.added@).contains(x) <==> (ids_of(new_devices@).contains(x) && !ids_of(
                old_devices@,
            ).contains(x)),
        forall|x: Seq<char>|
            texts(r.removed@).contains(x) <==> (ids_of(old_devices@).contains(x) && !ids_of(
                new_devices@,
            ).contains(x)),
        forall|x: Seq<char>|
            texts(r.unchanged@).contains(x) <==> (ids_of(old_devices@).contains(x) && ids_of(
                new_devices@,
            ).contains(x)),
{
    let added = select_ids(new_devices, old_devices, false);
    let removed = select_ids(old_devices, new_devices, false);
    let unchanged = select_ids(old_devices, new_devices, true);
    ConfigUpdateSummary { added, removed, unchanged }
}

} // verus!
