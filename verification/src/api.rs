//! Data shapes shared with the DNS provider's API, their mathematical
//! models, and the small computations of the fetch and update paths:
//! narrowing fetched records to the wanted names, and building the
//! write-only update payload.

use vstd::prelude::*;

verus! {

/// The host's current public IP address, as the IP-echo service reports it.
pub struct CurrentIP {
    /// The current IP address
    pub ip: String,
}

/// The provider's response envelope: the records returned for one zone.
pub struct CloudFlareResult {
    /// The records the provider returned
    pub result: Vec<DNSRecordResult>,
}

/// The provider's view of one DNS record, fetched fresh on every pass.
pub struct DNSRecordResult {
    /// The DNS record ID
    pub id: String,
    /// The DNS record name
    pub name: String,
    /// The DNS record IP address
    pub content: String,
    /// Is the DNS record locked?
    pub locked: bool,
    /// Is the DNS record proxied?
    pub proxied: bool,
    /// The DNS record ttl
    pub ttl: u32,
    /// The DNS record zone ID
    pub zone_id: String,
    /// The DNS record modified date
    pub modified_on: String,
}

/// The write-only payload of one record update.
pub struct UpdateRecord {
    /// The DNS record type, always "A" here
    pub record_type: String,
    /// The DNS record name
    pub name: String,
    /// The DNS record IP address
    pub content: String,
    /// The DNS record ttl
    pub ttl: u32,
    /// Is the DNS record proxied?
    pub proxied: bool,
}

/// Mathematical view of a `DNSRecordResult`.
pub struct RecordModel {
    pub id: Seq<char>,
    pub name: Seq<char>,
    pub content: Seq<char>,
    pub locked: bool,
    pub proxied: bool,
    pub ttl: u32,
    pub zone_id: Seq<char>,
    pub modified_on: Seq<char>,
}

/// Mathematical view of an `UpdateRecord`.
pub struct UpdateModel {
    pub record_type: Seq<char>,
    pub name: Seq<char>,
    pub content: Seq<char>,
    pub ttl: u32,
    pub proxied: bool,
}

impl DeepView for DNSRecordResult {
    type V = RecordModel;

    open spec fn deep_view(&self) -> RecordModel {
        RecordModel {
            id: self.id@,
            name: self.name@,
            content: self.content@,
            locked: self.locked,
            proxied: self.proxied,
            ttl: self.ttl,
            zone_id: self.zone_id@,
            modified_on: self.modified_on@,
        }
    }
}

impl DeepView for UpdateRecord {
    type V = UpdateModel;

    open spec fn deep_view(&self) -> UpdateModel {
        UpdateModel {
            record_type: self.record_type@,
            name: self.name@,
            content: self.content@,
            ttl: self.ttl,
            proxied: self.proxied,
        }
    }
}

impl Clone for DNSRecordResult {
    fn clone(&self) -> (r: Self)
        ensures
            r == *self,
    {
        DNSRecordResult {
            id: self.id.clone(),
            name: self.name.clone(),
            content: self.content.clone(),
            locked: self.locked,
            proxied: self.proxied,
            ttl: self.ttl,
            zone_id: self.zone_id.clone(),
            modified_on: self.modified_on.clone(),
        }
    }
}

/// A record name occurs among a zone's wanted names.
pub open spec fn name_wanted(wanted: Seq<Seq<char>>, name: Seq<char>) -> bool {
    exists|j: int| 0 <= j < wanted.len() && wanted[j] == name
}

/// The fetched records narrowed to the wanted names, provider order kept.
pub open spec fn filtered(records: Seq<RecordModel>, wanted: Seq<Seq<char>>) -> Seq<RecordModel>
    decreases records.len(),
{
    if records.len() == 0 {
        Seq::empty()
    } else {
        let rest = filtered(records.drop_last(), wanted);
        if name_wanted(wanted, records.last().name) {
            rest.push(records.last())
        } else {
            rest
        }
    }
}

/// A record needs an update exactly when it is not locked and its content
/// differs from the current IP.
pub open spec fn needs_update_model(r: RecordModel, ip: Seq<char>) -> bool {
    !r.locked && r.content != ip
}

/// The payload written for a record: type fixed to "A", name, ttl and the
/// proxied flag carried over unchanged, content replaced with the new IP.
pub open spec fn update_model(r: RecordModel, ip: Seq<char>) -> UpdateModel {
    UpdateModel { record_type: "A"@, name: r.name, content: ip, ttl: r.ttl, proxied: r.proxied }
}

/// Whether `name` is one of the wanted names.
pub fn name_in(wanted: &Vec<String>, name: &String) -> (b: bool)
    ensures
        b == name_wanted(wanted.deep_view(), name@),
{
    let mut j: usize = 0;
    while j < wanted.len()
        invariant
            j <= wanted.len(),
            forall|m: int| 0 <= m < j ==> wanted.deep_view()[m] != name@,
        decreases wanted.len() - j,
    {
        if wanted[j] == *name {
            proof {
                assert(wanted.deep_view()[j as int] == name@);
            }
            return true;
        }
        j += 1;
    }
    false
}

/// The update-or-skip decision for one record.
pub fn needs_update(record: &DNSRecordResult, cur_ip: &String) -> (b: bool)
    ensures
        b == needs_update_model(record.deep_view(), cur_ip@),
{
    !record.locked && !(record.content == *cur_ip)
}

/// Builds the update payload for `record` and the new IP.
pub fn update_payload(record: &DNSRecordResult, ip: &String) -> (u: UpdateRecord)
    ensures
        u.deep_view() == update_model(record.deep_view(), ip@),
        u.ttl == record.ttl,
        u.proxied == record.proxied,
        u.name@ == record.name@,
        u.content@ == ip@,
{
    UpdateRecord {
        record_type: "A".to_owned(),
        name: record.name.clone(),
        content: ip.clone(),
        ttl: record.ttl,
        proxied: record.proxied,
    }
}

/// Narrows `records` to those whose name is wanted, keeping provider order.
pub fn filter_wanted(records: Vec<DNSRecordResult>, wanted: &Vec<String>) -> (out: Vec<
    DNSRecordResult,
>)
    ensures
        out.deep_view() == filtered(records.deep_view(), wanted.deep_view()),
{
    let mut out: Vec<DNSRecordResult> = Vec::new();
    let mut i: usize = 0;
    proof {
        assert(records.deep_view().take(0) =~= Seq::<RecordModel>::empty());
    }
    while i < records.len()
        invariant
            i <= records.len(),
            out.deep_view() == filtered(records.deep_view().take(i as int), wanted.deep_view()),
        decreases records.len() - i,
    {
        let ghost pre = out.deep_view();
        let ghost dv = records.deep_view();
        let keep = name_in(wanted, &records[i].name);
        if keep {
            out.push(records[i].clone());
            proof {
                assert(out.deep_view() =~= pre.push(dv[i as int]));
            }
        }
        proof {
            assert(dv.take(i + 1).drop_last() =~= dv.take(i as int));
            assert(dv.take(i + 1).last() == dv[i as int]);
        }
        i += 1;
    }
    proof {
        assert(records.deep_view().take(records.len() as int) =~= records.deep_view());
    }
    out
}

impl CurrentIP {
    /// The bare IP string.
    pub fn into_ip(self) -> (r: String)
        ensures
            r@ == self.ip@,
    {
        self.ip
    }
}

impl CloudFlareResult {
    /// The envelope's records narrowed to the wanted names.
    pub fn into_wanted(self, wanted: &Vec<String>) -> (out: Vec<DNSRecordResult>)
        ensures
            out.deep_view() == filtered(self.result.deep_view(), wanted.deep_view()),
    {
        filter_wanted(self.result, wanted)
    }
}

} // verus!
