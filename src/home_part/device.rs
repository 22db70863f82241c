//! A smart device of the in-memory home model, with its named status values.
use vstd::prelude::*;
use crate::table::{has_key, keyed, keys_distinct, lemma_keyed_push, lemma_keyed_update};

verus! {

/// A device as its name, vendor identifier and status values.
pub struct DeviceState {
    pub name: Seq<char>,
    pub vendor_id: Seq<char>,
    pub status: Map<Seq<char>, Seq<char>>,
}

/// Status entries as pairs of character sequences.
pub open spec fn status_entries(s: Seq<(String, String)>) -> Seq<(Seq<char>, Seq<char>)> {
    s.map_values(|p: (String, String)| (p.0@, p.1@))
}

/// Borrowed status pairs as pairs of character sequences.
pub open spec fn str_pairs(s: Seq<(&str, &str)>) -> Seq<(Seq<char>, Seq<char>)> {
    s.map_values(|p: (&str, &str)| (p.0@, p.1@))
}

/// `m` after setting each pair of `s` in turn, a later value for a name
/// replacing an earlier one.
pub open spec fn apply_status(m: Map<Seq<char>, Seq<char>>, s: Seq<(Seq<char>, Seq<char>)>) -> Map<
    Seq<char>,
    Seq<char>,
>
    decreases s.len(),
{
    if s.len() == 0 {
        m
    } else {
        apply_status(m, s.drop_last()).insert(s.last().0, s.last().1)
    }
}

#[derive(Debug)]
pub struct SmartDevice {
    pub(crate) name: String,
    pub(crate) vendor_id: String,
    pub(crate) status_info: Vec<(String, String)>,
}

impl View for SmartDevice {
    type V = DeviceState;

    open(crate) spec fn view(&self) -> DeviceState {
        DeviceState {
            name: self.name@,
            vendor_id: self.vendor_id@,
            status: keyed(status_entries(self.status_info@)),
        }
    }
}

impl SmartDevice {
    /// Each status name occurs once.
    pub open(crate) spec fn wf(&self) -> bool {
        keys_distinct(status_entries(self.status_info@))
    }

    /// A device with no status values.
    pub fn new(name: &str, vendor_id: &str) -> (r: Self)
        ensures
            r.wf(),
            r@.name == name@,
            r@.vendor_id == vendor_id@,
            r@.status == Map::<Seq<char>, Seq<char>>::empty(),
    {
        let r = SmartDevice {
            name: String::from_str(name),
            vendor_id: String::from_str(vendor_id),
            status_info: Vec::new(),
        };
        assert(r@.status =~= Map::<Seq<char>, Seq<char>>::empty());
        r
    }

    /// Sets status `key` to `value`, replacing any earlier value.
    fn set_status(&mut self, key: String, value: String)
        requires
            old(self).wf(),
        ensures
            final(self).wf(),
            final(self)@ == (DeviceState { status: old(self)@.status.insert(key@, value@), ..old(self)@ }),
    {
        let ghost s = status_entries(self.status_info@);
        let mut i: usize = 0;
        while i < self.status_info.len()
            invariant
                i <= self.status_info@.len(),
                s == status_entries(self.status_info@),
                keys_distinct(s),
                self.name == old(self).name,
                self.vendor_id == old(self).vendor_id,
                self.status_info == old(self).status_info,
                forall|j: int| 0 <= j < i ==> #[trigger] s[j].0 != key@,
            decreases self.status_info@.len() - i,
        {
            if self.status_info[i].0 == key {
                proof {
                    lemma_keyed_update(s, i as int, value@);
                }
                self.status_info[i].1 = value;
                proof {
                    assert(status_entries(self.status_info@) =~= s.update(i as int, (key@, value@)));
                }
                return;
            }
            i += 1;
        }
        proof {
            if has_key(s, key@) {
                let j = choose|j: int| 0 <= j < s.len() && #[trigger] s[j].0 == key@;
            }
            lemma_keyed_push(s, (key@, value@));
        }
        let ghost kv = key@;
        let ghost vv = value@;
        self.status_info.push((key, value));
        proof {
            assert(status_entries(self.status_info@) =~= s.push((kv, vv)));
        }
    }

    /// Sets each named status value in turn.
    pub fn update_status_info(&mut self, status_info: Vec<(&str, &str)>)
        requires
            old(self).wf(),
        ensures
            final(self).wf(),
            final(self)@ == (DeviceState {
                status: apply_status(old(self)@.status, str_pairs(status_info@)),
                ..old(self)@
            }),
    {
        let ghost s = str_pairs(status_info@);
        let mut i: usize = 0;
        while i < status_info.len()
            invariant
                i <= status_info@.len(),
                s == str_pairs(status_info@),
                self.wf(),
                self@ == (DeviceState {
                    status: apply_status(old(self)@.status, s.take(i as int)),
                    ..old(self)@
                }),
            decreases status_info@.len() - i,
        {
            let (k, v) = status_info[i];
            self.set_status(String::from_str(k), String::from_str(v));
            proof {
                assert(s.take(i + 1).drop_last() =~= s.take(i as int));
            }
            i += 1;
        }
        proof {
            assert(s.take(status_info@.len() as int) =~= s);
        }
    }

    /// Sets each named status value in turn, taking owned pairs.
    pub fn update_status_info_from_cli(&mut self, status_info: Vec<(String, String)>)
        requires
            old(self).wf(),
        ensures
            final(self).wf(),
            final(self)@ == (DeviceState {
                status: apply_status(old(self)@.status, status_entries(status_info@)),
                ..old(self)@
            }),
    {
        let ghost s = status_entries(status_info@);
        let mut i: usize = 0;
        while i < status_info.len()
            invariant
                i <= status_info@.len(),
                s == status_entries(status_info@),
                self.wf(),
                self@ == (DeviceState {
                    status: apply_status(old(self)@.status, s.take(i as int)),
                    ..old(self)@
                }),
            decreases status_info@.len() - i,
        {
            let k = status_info[i].0.clone();
            let v = status_info[i].1.clone();
            self.set_status(k, v);
            proof {
                assert(s.take(i + 1).drop_last() =~= s.take(i as int));
            }
            i += 1;
        }
        proof {
            assert(s.take(status_info@.len() as int) =~= s);
        }
    }

    /// A copy of this device.
    pub fn duplicate(&self) -> (r: Self)
        requires
            self.wf(),
        ensures
            r.wf(),
            r@ == self@,
    {
        let mut status: Vec<(String, String)> = Vec::new();
        let mut i: usize = 0;
        while i < self.status_info.len()
            invariant
                i <= self.status_info@.len(),
                status_entries(status@) == status_entries(self.status_info@).take(i as int),
            decreases self.status_info@.len() - i,
        {
            let k = self.status_info[i].0.clone();
            let v = self.status_info[i].1.clone();
            let ghost before = status_entries(status@);
            status.push((k, v));
            proof {
                assert(status_entries(status@) =~= before.push((k@, v@)));
                assert(status_entries(self.status_info@).take(i + 1) =~= status_entries(
                    self.status_info@,
                ).take(i as int).push((k@, v@)));
            }
            i += 1;
        }
        proof {
            assert(status_entries(self.status_info@).take(self.status_info@.len() as int)
                =~= status_entries(self.status_info@));
        }
        SmartDevice { name: self.name.clone(), vendor_id: self.vendor_id.clone(), status_info: status }
    }
}

} // verus!
