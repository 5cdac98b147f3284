use vstd::prelude::*;
use crate::text::{views, owned, decimal, digits};

verus! {

/// A stored set of hardware identifiers, to be re-applied later.
#[derive(Debug)]
pub struct HardwareProfile {
    pub name: String,
    pub created_at: String,
    pub machine_guid: Option<String>,
    pub product_id: Option<String>,
    pub computer_name: Option<String>,
    /// Volume IDs by drive letter, such as `("C", "1234-5678")`; one entry per
    /// drive (see `wf`).
    pub volume_ids: Vec<(String, String)>,
    /// MAC addresses by adapter key; one entry per adapter (see `wf`).
    pub mac_addresses: Vec<(String, String)>,
}

/// All saved profiles, and the one in use.
#[derive(Debug)]
pub struct ProfileManager {
    pub profiles: Vec<HardwareProfile>,
    pub active_profile: Option<String>,
}

/// `k` zeros.
pub open spec fn zeros(k: nat) -> Seq<char>
    decreases k,
{
    if k == 0 {
        Seq::empty()
    } else {
        zeros((k - 1) as nat).push('0')
    }
}

/// The decimal notation of `n`, padded with leading zeros to `width` characters.
pub open spec fn padded(n: nat, width: nat) -> Seq<char> {
    if digits(n).len() < width {
        zeros((width - digits(n).len()) as nat) + digits(n)
    } else {
        digits(n)
    }
}

pub open spec fn min_nat(a: nat, b: nat) -> nat {
    if a < b {
        a
    } else {
        b
    }
}

/// A rough ISO-8601 rendering of a Unix time: years of 365 days and months of
/// 30 days, as `YYYY-MM-DDThh:mm:ss`.
pub open spec fn timestamp(secs: nat) -> Seq<char> {
    let days = secs / 86400;
    let rest = secs % 86400;
    let day_of_year = days % 365;
    padded(1970 + days / 365, 4) + "-"@ + padded(min_nat(day_of_year / 30 + 1, 12), 2) + "-"@
        + padded(min_nat(day_of_year % 30 + 1, 31), 2) + "T"@ + padded(rest / 3600, 2) + ":"@
        + padded((rest % 3600) / 60, 2) + ":"@ + padded(rest % 60, 2)
}

/// The profiles left when those named `name` are taken out, in order.
pub open spec fn without_name(ps: Seq<HardwareProfile>, name: Seq<char>) -> Seq<HardwareProfile>
    decreases ps.len(),
{
    if ps.len() == 0 {
        Seq::empty()
    } else {
        let w = without_name(ps.drop_last(), name);
        if ps.last().name@ == name {
            w
        } else {
            w.push(ps.last())
        }
    }
}

/// The decimal notation of `n`, padded with leading zeros to `width` characters.
pub fn pad(n: u64, width: usize) -> (r: String)
    ensures
        r@ == padded(n as nat, width as nat),
{
    let d = decimal(n);
    let len = d.unicode_len();
    if len >= width {
        return d;
    }
    let mut r = String::new();
    let mut k: usize = 0;
    while k < width - len
        invariant
            len < width,
            k <= width - len,
            r@ == zeros(k as nat),
        decreases width - len - k,
    {
        r.append("0");
        proof {
            reveal_strlit("0");
            assert(r@ =~= zeros((k + 1) as nat));
        }
        k = k + 1;
    }
    r.append(d.as_str());
    r
}

#[verifier::external_type_specification]
#[verifier::external_body]
pub struct ExSystemTime(std::time::SystemTime);

#[verifier::external_type_specification]
#[verifier::external_body]
pub struct ExSystemTimeError(std::time::SystemTimeError);

/// Relies on `std::time::SystemTime::now`: the current time of the system
/// clock, any value.
#[verifier::external_body]
fn clock_now() -> (r: std::time::SystemTime) {
    std::time::SystemTime::now()
}

/// Relies on `std::time::SystemTime::duration_since`: the time elapsed since
/// the Unix epoch, or an error for a time before it.
#[verifier::external_body]
fn since_unix_epoch(t: &std::time::SystemTime) -> (r: Result<
    std::time::Duration,
    std::time::SystemTimeError,
>) {
    t.duration_since(std::time::UNIX_EPOCH)
}

/// Relies on `std::time::Duration::as_secs`: the whole seconds of a duration.
#[verifier::external_body]
fn whole_seconds(d: &std::time::Duration) -> (r: u64) {
    d.as_secs()
}

/// The whole seconds since the Unix epoch, or zero for a clock set before it.
fn unix_seconds() -> (r: u64) {
    match since_unix_epoch(&clock_now()) {
        Ok(d) => whole_seconds(&d),
        Err(_) => 0,
    }
}

/// The rough ISO-8601 rendering of a Unix time.
pub fn timestamp_text(secs: u64) -> (r: String)
    ensures
        r@ == timestamp(secs as nat),
{
    let days = secs / 86400;
    let rest = secs % 86400;
    let day_of_year = days % 365;
    let month = if day_of_year / 30 + 1 < 12 {
        day_of_year / 30 + 1
    } else {
        12
    };
    let day = if day_of_year % 30 + 1 < 31 {
        day_of_year % 30 + 1
    } else {
        31
    };
    let mut r = pad(1970 + days / 365, 4);
    r.append("-");
    r.append(pad(month, 2).as_str());
    r.append("-");
    r.append(pad(day, 2).as_str());
    r.append("T");
    r.append(pad(rest / 3600, 2).as_str());
    r.append(":");
    r.append(pad((rest % 3600) / 60, 2).as_str());
    r.append(":");
    r.append(pad(rest % 60, 2).as_str());
    r
}

/// The current time as a rough ISO-8601 text.
pub fn chrono_lite_now() -> (r: String)
    ensures
        exists|secs: u64| r@ == timestamp(secs as nat),
{
    let secs = unix_seconds();
    timestamp_text(secs)
}

impl HardwareProfile {
    /// An empty profile with this name, stamped with the current time.
    pub fn new(name: String) -> (r: HardwareProfile)
        ensures
            r.name == name,
            exists|secs: u64| r.created_at@ == timestamp(secs as nat),
            r.machine_guid is None,
            r.product_id is None,
            r.computer_name is None,
            r.volume_ids@.len() == 0,
            r.mac_addresses@.len() == 0,
            r.wf(),
    {
        HardwareProfile {
            name,
            created_at: chrono_lite_now(),
            machine_guid: None,
            product_id: None,
            computer_name: None,
            volume_ids: Vec::new(),
            mac_addresses: Vec::new(),
        }
    }

    /// A profile of the identifiers that this platform lets the library read:
    /// none, so the profile is empty.
    pub fn snapshot_current(name: String) -> (r: Result<HardwareProfile, String>)
        ensures
            r matches Ok(p) && p.name == name && p.machine_guid is None && p.product_id is None
                && p.computer_name is None && p.volume_ids@.len() == 0 && p.mac_addresses@.len()
                == 0 && p.wf(),
    {
        Ok(HardwareProfile::new(name))
    }

    /// Each drive and each adapter is listed once.
    pub open spec fn wf(&self) -> bool {
        keys_unique(self.volume_ids@) && keys_unique(self.mac_addresses@)
    }

    /// Records the Volume ID of a drive, in place of any it had.
    pub fn set_volume_id(&mut self, drive: String, volume_id: String)
        requires
            old(self).wf(),
        ensures
            final(self).wf(),
            put_result(old(self).volume_ids@, final(self).volume_ids@, drive, volume_id),
            final(self).mac_addresses == old(self).mac_addresses,
            final(self).name == old(self).name,
    {
        put(&mut self.volume_ids, drive, volume_id);
    }

    /// Records the MAC address of an adapter, in place of any it had.
    pub fn set_mac_address(&mut self, adapter: String, mac: String)
        requires
            old(self).wf(),
        ensures
            final(self).wf(),
            put_result(old(self).mac_addresses@, final(self).mac_addresses@, adapter, mac),
            final(self).volume_ids == old(self).volume_ids,
            final(self).name == old(self).name,
    {
        put(&mut self.mac_addresses, adapter, mac);
    }
}

/// No key is listed twice.
pub open spec fn keys_unique(v: Seq<(String, String)>) -> bool {
    forall|i: int, j: int| 0 <= i < j < v.len() ==> (#[trigger] v[i]).0@ != (#[trigger] v[j]).0@
}

/// `after` is `before` with `value` recorded under `key`: in place of the entry
/// of that key where there is one, else appended.
pub open spec fn put_result(
    before: Seq<(String, String)>,
    after: Seq<(String, String)>,
    key: String,
    value: String,
) -> bool {
    if exists|i: int| 0 <= i < before.len() && (#[trigger] before[i]).0@ == key@ {
        exists|i: int|
            0 <= i < before.len() && (#[trigger] before[i]).0@ == key@ && after == before.update(
                i,
                (key, value),
            )
    } else {
        after == before.push((key, value))
    }
}

fn put(v: &mut Vec<(String, String)>, key: String, value: String)
    requires
        keys_unique(old(v)@),
    ensures
        keys_unique(final(v)@),
        put_result(old(v)@, final(v)@, key, value),
{
    let mut i: usize = 0;
    while i < v.len()
        invariant
            i <= v@.len(),
            v@ == old(v)@,
            keys_unique(old(v)@),
            forall|k: int| 0 <= k < i ==> (#[trigger] v@[k]).0@ != key@,
        decreases v@.len() - i,
    {
        if v[i].0 == key {
            let ghost before = v@;
            v.set(i, (key, value));
            proof {
                assert(v@ == before.update(i as int, (key, value)));
                assert(before[i as int].0@ == key@);
                assert forall|a: int, b: int| 0 <= a < b < v@.len() implies (#[trigger] v@[a]).0@
                    != (#[trigger] v@[b]).0@ by {
                    assert(before[a].0@ != before[b].0@);
                }
            }
            return;
        }
        i = i + 1;
    }
    let ghost before = v@;
    v.push((key, value));
    proof {
        assert(!exists|k: int| 0 <= k < before.len() && (#[trigger] before[k]).0@ == key@);
        assert forall|a: int, b: int| 0 <= a < b < v@.len() implies (#[trigger] v@[a]).0@ != (
        #[trigger] v@[b]).0@ by {
            if b < before.len() {
                assert(before[a].0@ != before[b].0@);
            } else {
                assert(v@[a] == before[a]);
            }
        }
    }
}

impl Default for ProfileManager {
    fn default() -> (r: ProfileManager)
        ensures
            r.profiles@.len() == 0,
            r.active_profile is None,
    {
        ProfileManager { profiles: Vec::new(), active_profile: None }
    }
}

impl ProfileManager {
    /// Takes out every profile named `name`, keeping the order of the others.
    fn remove_named(&mut self, name: &String)
        ensures
            final(self).profiles@ == without_name(old(self).profiles@, name@),
            final(self).active_profile == old(self).active_profile,
    {
        let ghost start = self.profiles@;
        let ghost mut j: int = 0;
        let mut i: usize = 0;
        while i < self.profiles.len()
            invariant
                0 <= j <= start.len(),
                i == without_name(start.take(j), name@).len(),
                self.profiles@ == without_name(start.take(j), name@) + start.skip(j),
                self.active_profile == old(self).active_profile,
            decreases start.len() - j,
        {
            proof {
                assert(start.take(j + 1).drop_last() =~= start.take(j));
                assert(start.take(j + 1).last() == start[j]);
                assert(self.profiles@[i as int] == start[j]);
            }
            if self.profiles[i].name == *name {
                self.profiles.remove(i);
                proof {
                    assert(self.profiles@ =~= without_name(start.take(j + 1), name@) + start.skip(
                        j + 1,
                    ));
                }
            } else {
                proof {
                    assert(self.profiles@ =~= without_name(start.take(j + 1), name@) + start.skip(
                        j + 1,
                    ));
                }
                i = i + 1;
            }
            proof {
                j = j + 1;
            }
        }
        proof {
            if j < start.len() {
                assert(self.profiles@.len() > i);
            }
            assert(start.take(j) =~= start);
            assert(self.profiles@ =~= without_name(start, name@));
        }
    }

    /// Adds a profile, in place of any profile of the same name.
    pub fn add_or_update_profile(&mut self, profile: HardwareProfile)
        ensures
            final(self).profiles@ == without_name(old(self).profiles@, profile.name@).push(profile),
            final(self).active_profile == old(self).active_profile,
    {
        self.remove_named(&profile.name);
        self.profiles.push(profile);
    }

    /// Removes the profiles named `name`; a profile of that name in use is no
    /// longer in use.
    pub fn remove_profile(&mut self, name: &str)
        ensures
            final(self).profiles@ == without_name(old(self).profiles@, name@),
            final(self).active_profile == match old(self).active_profile {
                Some(a) => if a@ == name@ {
                    None
                } else {
                    Some(a)
                },
                None => None,
            },
    {
        let key = owned(name);
        self.remove_named(&key);
        let clear = match &self.active_profile {
            Some(a) => *a == key,
            None => false,
        };
        if clear {
            self.active_profile = None;
        }
    }

    /// The first profile named `name`.
    pub fn get_profile(&self, name: &str) -> (r: Option<&HardwareProfile>)
        ensures
            r is None <==> forall|i: int|
                0 <= i < self.profiles@.len() ==> #[trigger] self.profiles@[i].name@ != name@,
            r matches Some(p) ==> exists|i: int|
                0 <= i < self.profiles@.len() && *p == self.profiles@[i] && p.name@ == name@
                    && forall|k: int| 0 <= k < i ==> #[trigger] self.profiles@[k].name@ != name@,
    {
        let key = owned(name);
        let mut i: usize = 0;
        while i < self.profiles.len()
            invariant
                i <= self.profiles@.len(),
                key@ == name@,
                forall|k: int| 0 <= k < i ==> #[trigger] self.profiles@[k].name@ != name@,
            decreases self.profiles@.len() - i,
        {
            if self.profiles[i].name == key {
                return Some(&self.profiles[i]);
            }
            i = i + 1;
        }
        None
    }

    /// The names of all profiles, in order.
    pub fn profile_names(&self) -> (r: Vec<String>)
        ensures
            views(r@) == self.profiles@.map_values(|p: HardwareProfile| p.name@),
    {
        let mut r: Vec<String> = Vec::new();
        let mut i: usize = 0;
        while i < self.profiles.len()
            invariant
                i <= self.profiles@.len(),
                views(r@) == self.profiles@.take(i as int).map_values(
                    |p: HardwareProfile| p.name@,
                ),
            decreases self.profiles@.len() - i,
        {
            let ghost prev = views(r@);
            r.push(self.profiles[i].name.clone());
            proof {
                assert(views(r@) =~= prev.push(self.profiles@[i as int].name@));
                assert(self.profiles@.take(i + 1).map_values(|p: HardwareProfile| p.name@)
                    =~= self.profiles@.take(i as int).map_values(|p: HardwareProfile| p.name@).push(
                    self.profiles@[i as int].name@,
                ));
            }
            i = i + 1;
        }
        assert(self.profiles@.take(self.profiles@.len() as int) =~= self.profiles@);
        r
    }
}

} // verus!
