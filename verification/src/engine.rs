//! The reconciliation engine: a state machine that decides, one network
//! call at a time, which zones to fetch and which records to update so
//! that every configured record converges to the current public IP.
//!
//! The engine performs no I/O. `pass_init` starts a pass; the caller
//! carries out each returned `Action` (one HTTP call) and hands its
//! outcome back to `pass_step` as an `Event`, until the action is
//! `Finished`. A failed record update or zone fetch never stops the rest
//! of the pass; a failed IP lookup ends the pass with nothing written.

use vstd::prelude::*;

use crate::api::DNSRecordResult;
use crate::api::RecordModel;
use crate::api::UpdateModel;
use crate::api::UpdateRecord;
use crate::api::filter_wanted;
use crate::api::filtered;
use crate::api::name_wanted;
use crate::api::needs_update;
use crate::api::needs_update_model;
use crate::api::update_model;
use crate::api::update_payload;

verus! {

/// One zone under a credential: the provider's zone id and the ordered
/// record names that should track the host's IP.
pub struct ZoneConfig {
    /// The provider-assigned zone identifier
    pub zone_id: String,
    /// The record names of interest, in order
    pub records: Vec<String>,
}

/// One API credential and the zones it controls.
pub struct KeyConfig {
    /// The bearer token
    pub auth_key: String,
    /// The zones this credential controls
    pub zones: Vec<ZoneConfig>,
}

/// The static configuration: credentials and the poll interval.
pub struct Config {
    /// The credentials, each with its zones
    pub keys: Vec<KeyConfig>,
    /// Seconds to wait between two passes
    pub update_threshold: u64,
}

/// Mathematical view of a `ZoneConfig`.
pub struct ZoneModel {
    pub zone_id: Seq<char>,
    pub records: Seq<Seq<char>>,
}

/// Mathematical view of a `KeyConfig`.
pub struct KeyModel {
    pub auth_key: Seq<char>,
    pub zones: Seq<ZoneModel>,
}

/// Mathematical view of a `Config`.
pub struct ConfigModel {
    pub keys: Seq<KeyModel>,
    pub update_threshold: u64,
}

impl DeepView for ZoneConfig {
    type V = ZoneModel;

    open spec fn deep_view(&self) -> ZoneModel {
        ZoneModel { zone_id: self.zone_id@, records: self.records.deep_view() }
    }
}

impl DeepView for KeyConfig {
    type V = KeyModel;

    open spec fn deep_view(&self) -> KeyModel {
        KeyModel { auth_key: self.auth_key@, zones: self.zones.deep_view() }
    }
}

impl DeepView for Config {
    type V = ConfigModel;

    open spec fn deep_view(&self) -> ConfigModel {
        ConfigModel { keys: self.keys.deep_view(), update_threshold: self.update_threshold }
    }
}

/// Which outcome a pass is waiting for.
#[derive(Clone, Copy, Debug, PartialEq, Eq)]
pub enum Phase {
    /// Waiting for the current public IP.
    ResolvingIp,
    /// Waiting for the records of the zone at `(key, zone)`.
    Fetching,
    /// Waiting for the outcome of the update at `(key, zone, index)`.
    Putting,
    /// The pass is over.
    Done,
}

/// One reconciliation pass in progress.
pub struct Pass {
    /// Which outcome the pass is waiting for
    pub phase: Phase,
    /// The IP resolved at the start of the pass
    pub cur_ip: String,
    /// Position: index into the configured credentials
    pub key: usize,
    /// Position: index into the credential's zones
    pub zone: usize,
    /// Position: index into the zone's wanted-name list
    pub index: usize,
    /// The current zone's fetched records, narrowed to the wanted names
    pub zone_records: Vec<DNSRecordResult>,
}

/// What the caller must do next.
pub enum Action {
    /// Ask the IP-echo service for the current public IP.
    ResolveIp,
    /// Fetch the "A" records of the zone at `keys[key].zones[zone]`.
    FetchZone { key: usize, zone: usize },
    /// Issue one update: write `payload` for record `record_id` of zone
    /// `zone_id`, authorized by the token of `keys[key]`.
    PutRecord {
        key: usize,
        zone: usize,
        index: usize,
        zone_id: String,
        record_id: String,
        payload: UpdateRecord,
    },
    /// The pass is over.
    Finished,
}

/// The outcome of the last action, handed back by the caller.
pub enum Event {
    /// The IP lookup succeeded with this address.
    IpOk(String),
    /// The IP lookup failed (transport or parse).
    IpErr,
    /// The zone fetch succeeded; the decoded records, not yet narrowed.
    FetchOk(Vec<DNSRecordResult>),
    /// The zone fetch failed (transport, authorization or parse).
    FetchErr,
    /// The update call came back: `true` on success, `false` on failure.
    PutDone(bool),
}

/// Mathematical view of a `Pass`.
pub struct PassModel {
    pub phase: Phase,
    pub cur_ip: Seq<char>,
    pub key: int,
    pub zone: int,
    pub index: int,
    pub zone_records: Seq<RecordModel>,
}

/// Mathematical view of an `Action`.
pub enum ActionModel {
    ResolveIp,
    FetchZone { key: int, zone: int },
    PutRecord {
        key: int,
        zone: int,
        index: int,
        zone_id: Seq<char>,
        record_id: Seq<char>,
        payload: UpdateModel,
    },
    Finished,
}

/// Mathematical view of an `Event`.
pub enum EventModel {
    IpOk(Seq<char>),
    IpErr,
    FetchOk(Seq<RecordModel>),
    FetchErr,
    PutDone(bool),
}

impl DeepView for Pass {
    type V = PassModel;

    open spec fn deep_view(&self) -> PassModel {
        PassModel {
            phase: self.phase,
            cur_ip: self.cur_ip@,
            key: self.key as int,
            zone: self.zone as int,
            index: self.index as int,
            zone_records: self.zone_records.deep_view(),
        }
    }
}

impl DeepView for Action {
    type V = ActionModel;

    open spec fn deep_view(&self) -> ActionModel {
        match self {
            Action::ResolveIp => ActionModel::ResolveIp,
            Action::FetchZone { key, zone } => ActionModel::FetchZone {
                key: *key as int,
                zone: *zone as int,
            },
            Action::PutRecord { key, zone, index, zone_id, record_id, payload } => {
                ActionModel::PutRecord {
                    key: *key as int,
                    zone: *zone as int,
                    index: *index as int,
                    zone_id: zone_id@,
                    record_id: record_id@,
                    payload: payload.deep_view(),
                }
            },
            Action::Finished => ActionModel::Finished,
        }
    }
}

impl DeepView for Event {
    type V = EventModel;

    open spec fn deep_view(&self) -> EventModel {
        match self {
            Event::IpOk(ip) => EventModel::IpOk(ip@),
            Event::IpErr => EventModel::IpErr,
            Event::FetchOk(recs) => EventModel::FetchOk(recs.deep_view()),
            Event::FetchErr => EventModel::FetchErr,
            Event::PutDone(b) => EventModel::PutDone(*b),
        }
    }
}

/// The wanted-name list of the zone at `(k, z)`.
pub open spec fn wanted_of(c: ConfigModel, k: int, z: int) -> Seq<Seq<char>> {
    c.keys[k].zones[z].records
}

/// The first configured zone at or after position `(k, z)`, credentials in
/// order; `(keys.len(), 0)` when none is left.
pub open spec fn seek_zone_model(c: ConfigModel, k: int, z: int) -> (int, int)
    decreases c.keys.len() - k
        when 0 <= k
{
    if k >= c.keys.len() {
        (c.keys.len() as int, 0)
    } else if 0 <= z && z < c.keys[k].zones.len() {
        (k, z)
    } else {
        seek_zone_model(c, k + 1, 0)
    }
}

/// The first position at or after `i` in the wanted-name list that has a
/// fetched record needing an update; `wanted_len` when none is left.
pub open spec fn seek_record_model(
    records: Seq<RecordModel>,
    ip: Seq<char>,
    wanted_len: int,
    i: int,
) -> int
    decreases wanted_len - i
        when i <= wanted_len
{
    if i >= wanted_len {
        wanted_len
    } else if 0 <= i && i < records.len() && needs_update_model(records[i], ip) {
        i
    } else {
        seek_record_model(records, ip, wanted_len, i + 1)
    }
}

/// The state and action on entering the zone search at `(k, z)`: fetch the
/// next configured zone, or finish the pass.
pub open spec fn zone_entry_model(c: ConfigModel, ip: Seq<char>, k: int, z: int) -> (
    PassModel,
    ActionModel,
) {
    let (k2, z2) = seek_zone_model(c, k, z);
    if k2 < c.keys.len() {
        (
            PassModel {
                phase: Phase::Fetching,
                cur_ip: ip,
                key: k2,
                zone: z2,
                index: 0,
                zone_records: Seq::empty(),
            },
            ActionModel::FetchZone { key: k2, zone: z2 },
        )
    } else {
        (
            PassModel {
                phase: Phase::Done,
                cur_ip: ip,
                key: k2,
                zone: 0,
                index: 0,
                zone_records: Seq::empty(),
            },
            ActionModel::Finished,
        )
    }
}

/// The state and action on entering the record search of zone `(k, z)` at
/// position `i`: request the next needed update, or move past this zone.
pub open spec fn record_entry_model(
    c: ConfigModel,
    ip: Seq<char>,
    k: int,
    z: int,
    recs: Seq<RecordModel>,
    i: int,
) -> (PassModel, ActionModel) {
    let wl = wanted_of(c, k, z).len() as int;
    let j = seek_record_model(recs, ip, wl, i);
    if j < wl {
        (
            PassModel {
                phase: Phase::Putting,
                cur_ip: ip,
                key: k,
                zone: z,
                index: j,
                zone_records: recs,
            },
            ActionModel::PutRecord {
                key: k,
                zone: z,
                index: j,
                zone_id: recs[j].zone_id,
                record_id: recs[j].id,
                payload: update_model(recs[j], ip),
            },
        )
    } else {
        zone_entry_model(c, ip, k, z + 1)
    }
}

/// One transition of the reconciliation machine.
pub open spec fn step_model(c: ConfigModel, s: PassModel, e: EventModel) -> (
    PassModel,
    ActionModel,
) {
    match s.phase {
        Phase::ResolvingIp => match e {
            EventModel::IpOk(ip) => zone_entry_model(c, ip, 0, 0),
            EventModel::IpErr => (PassModel { phase: Phase::Done, ..s }, ActionModel::Finished),
            _ => (s, ActionModel::Finished),
        },
        Phase::Fetching => match e {
            EventModel::FetchOk(recs) => record_entry_model(
                c,
                s.cur_ip,
                s.key,
                s.zone,
                filtered(recs, wanted_of(c, s.key, s.zone)),
                0,
            ),
            EventModel::FetchErr => zone_entry_model(c, s.cur_ip, s.key, s.zone + 1),
            _ => (s, ActionModel::Finished),
        },
        Phase::Putting => match e {
            EventModel::PutDone(_) => record_entry_model(
                c,
                s.cur_ip,
                s.key,
                s.zone,
                s.zone_records,
                s.index + 1,
            ),
            _ => (s, ActionModel::Finished),
        },
        Phase::Done => (s, ActionModel::Finished),
    }
}

/// The events a state can take next.
pub open spec fn accepts(s: PassModel, e: EventModel) -> bool {
    match s.phase {
        Phase::ResolvingIp => e is IpOk || e is IpErr,
        Phase::Fetching => e is FetchOk || e is FetchErr,
        Phase::Putting => e is PutDone,
        Phase::Done => false,
    }
}

/// Well-formedness of a pass state against the configuration: the position
/// is in range, and a pending update targets a record that needs one.
pub open spec fn wf(c: ConfigModel, s: PassModel) -> bool {
    match s.phase {
        Phase::ResolvingIp => true,
        Phase::Fetching => 0 <= s.key < c.keys.len() && 0 <= s.zone < c.keys[s.key].zones.len(),
        Phase::Putting => {
            &&& 0 <= s.key < c.keys.len()
            &&& 0 <= s.zone < c.keys[s.key].zones.len()
            &&& 0 <= s.index < wanted_of(c, s.key, s.zone).len()
            &&& s.index < s.zone_records.len()
            &&& needs_update_model(s.zone_records[s.index], s.cur_ip)
        },
        Phase::Done => true,
    }
}

/// The state a pass starts in.
pub open spec fn init_model() -> PassModel {
    PassModel {
        phase: Phase::ResolvingIp,
        cur_ip: Seq::empty(),
        key: 0,
        zone: 0,
        index: 0,
        zone_records: Seq::empty(),
    }
}

proof fn lemma_seek_zone(c: ConfigModel, k: int, z: int)
    requires
        0 <= k,
    ensures
        ({
            let (k2, z2) = seek_zone_model(c, k, z);
            &&& 0 <= k2 <= c.keys.len()
            &&& k2 < c.keys.len() ==> 0 <= z2 < c.keys[k2].zones.len()
            &&& k2 == c.keys.len() ==> z2 == 0
        }),
    decreases c.keys.len() - k,
{
    if k >= c.keys.len() {
    } else if 0 <= z && z < c.keys[k].zones.len() {
    } else {
        lemma_seek_zone(c, k + 1, 0);
    }
}

proof fn lemma_seek_record(records: Seq<RecordModel>, ip: Seq<char>, wl: int, i: int)
    requires
        0 <= i <= wl,
    ensures
        ({
            let j = seek_record_model(records, ip, wl, i);
            &&& i <= j <= wl
            &&& j < wl ==> j < records.len() && needs_update_model(records[j], ip)
        }),
    decreases wl - i,
{
    if i >= wl {
    } else if 0 <= i && i < records.len() && needs_update_model(records[i], ip) {
    } else {
        lemma_seek_record(records, ip, wl, i + 1);
    }
}

proof fn lemma_zone_entry(c: ConfigModel, ip: Seq<char>, k: int, z: int)
    requires
        0 <= k,
    ensures
        ({
            let (s2, a) = zone_entry_model(c, ip, k, z);
            &&& wf(c, s2)
            &&& s2.cur_ip == ip
            &&& !(a is PutRecord)
        }),
{
    lemma_seek_zone(c, k, z);
}

proof fn lemma_record_entry(
    c: ConfigModel,
    ip: Seq<char>,
    k: int,
    z: int,
    recs: Seq<RecordModel>,
    i: int,
)
    requires
        0 <= k < c.keys.len(),
        0 <= z < c.keys[k].zones.len(),
        0 <= i <= wanted_of(c, k, z).len(),
    ensures
        ({
            let (s2, a) = record_entry_model(c, ip, k, z, recs, i);
            &&& wf(c, s2)
            &&& s2.cur_ip == ip
            &&& put_action_sound(c, s2, a)
        }),
{
    let wl = wanted_of(c, k, z).len() as int;
    lemma_seek_record(recs, ip, wl, i);
    lemma_zone_entry(c, ip, k, z + 1);
}

/// What holds of any update the machine requests: it stands at the
/// machine's own position, inside the wanted-name list, it targets a
/// record that is not locked and whose content differs from the current
/// IP, and its payload carries the record's ttl, proxied flag and name
/// over unchanged, with the content replaced by the current IP.
pub open spec fn put_action_sound(c: ConfigModel, s2: PassModel, a: ActionModel) -> bool {
    a matches ActionModel::PutRecord { key, zone, index, zone_id, record_id, payload } ==> {
        &&& s2.phase is Putting
        &&& key == s2.key
        &&& zone == s2.zone
        &&& index == s2.index
        &&& 0 <= index < wanted_of(c, key, zone).len()
        &&& 0 <= index < s2.zone_records.len()
        &&& !s2.zone_records[index].locked
        &&& s2.zone_records[index].content != s2.cur_ip
        &&& payload == update_model(s2.zone_records[index], s2.cur_ip)
        &&& payload.ttl == s2.zone_records[index].ttl
        &&& payload.proxied == s2.zone_records[index].proxied
        &&& payload.name == s2.zone_records[index].name
        &&& payload.content == s2.cur_ip
        &&& record_id == s2.zone_records[index].id
        &&& zone_id == s2.zone_records[index].zone_id
    }
}

/// Soundness of one step: from a well-formed state the machine stays
/// well-formed, and any update it requests satisfies `put_action_sound` —
/// in particular, no locked record and no record already holding the
/// current IP is ever written, and every payload keeps ttl and proxied.
pub proof fn lemma_step_model_sound(c: ConfigModel, s: PassModel, e: EventModel)
    requires
        wf(c, s),
    ensures
        ({
            let (s2, a) = step_model(c, s, e);
            &&& wf(c, s2)
            &&& put_action_sound(c, s2, a)
        }),
{
    match s.phase {
        Phase::ResolvingIp => {
            if let EventModel::IpOk(ip) = e {
                lemma_zone_entry(c, ip, 0, 0);
            }
        },
        Phase::Fetching => {
            match e {
                EventModel::FetchOk(recs) => {
                    lemma_record_entry(
                        c,
                        s.cur_ip,
                        s.key,
                        s.zone,
                        filtered(recs, wanted_of(c, s.key, s.zone)),
                        0,
                    );
                },
                EventModel::FetchErr => {
                    lemma_zone_entry(c, s.cur_ip, s.key, s.zone + 1);
                },
                _ => {},
            }
        },
        Phase::Putting => {
            if e is PutDone {
                lemma_record_entry(c, s.cur_ip, s.key, s.zone, s.zone_records, s.index + 1);
            }
        },
        Phase::Done => {},
    }
}

proof fn lemma_seek_record_skips_only_settled(
    records: Seq<RecordModel>,
    ip: Seq<char>,
    wl: int,
    i: int,
)
    requires
        0 <= i <= wl,
    ensures
        forall|p: int|
            i <= p < seek_record_model(records, ip, wl, i) ==> !(p < records.len()
                && needs_update_model(records[p], ip)),
    decreases wl - i,
{
    if i >= wl {
    } else if 0 <= i && i < records.len() && needs_update_model(records[i], ip) {
    } else {
        lemma_seek_record_skips_only_settled(records, ip, wl, i + 1);
    }
}

proof fn lemma_record_entry_complete(
    c: ConfigModel,
    ip: Seq<char>,
    k: int,
    z: int,
    recs: Seq<RecordModel>,
    i: int,
)
    requires
        0 <= k < c.keys.len(),
        0 <= z < c.keys[k].zones.len(),
        0 <= i <= wanted_of(c, k, z).len(),
    ensures
        ({
            let (s2, a) = record_entry_model(c, ip, k, z, recs, i);
            let wl = wanted_of(c, k, z).len() as int;
            let stop = if a is PutRecord {
                s2.index
            } else {
                wl
            };
            forall|p: int|
                i <= p < stop ==> !(p < recs.len() && needs_update_model(recs[p], ip))
        }),
{
    let wl = wanted_of(c, k, z).len() as int;
    lemma_seek_record(recs, ip, wl, i);
    lemma_seek_record_skips_only_settled(recs, ip, wl, i);
    lemma_zone_entry(c, ip, k, z + 1);
}

/// The engine requests no more updates than needed, and no fewer: when a
/// zone's records arrive, the first update requested — or the end of the
/// zone, when none is — passes over only positions that hold no fetched
/// record, or a record that is locked or already current. No needed
/// update is skipped.
pub proof fn lemma_first_update_is_first_needed(
    c: ConfigModel,
    s: PassModel,
    recs: Seq<RecordModel>,
)
    requires
        wf(c, s),
        s.phase is Fetching,
    ensures
        ({
            let f = filtered(recs, wanted_of(c, s.key, s.zone));
            let (s2, a) = step_model(c, s, EventModel::FetchOk(recs));
            let wl = wanted_of(c, s.key, s.zone).len() as int;
            let stop = if a is PutRecord {
                s2.index
            } else {
                wl
            };
            forall|p: int|
                0 <= p < stop ==> !(p < f.len() && needs_update_model(f[p], s.cur_ip))
        }),
{
    let f = filtered(recs, wanted_of(c, s.key, s.zone));
    lemma_record_entry_complete(c, s.cur_ip, s.key, s.zone, f, 0);
}

/// Once an update's outcome is back, the next update requested in the
/// zone — or the end of the zone, when none is — passes over only
/// positions that hold no fetched record, or a record that is locked or
/// already current. No needed update is skipped.
pub proof fn lemma_no_needed_record_skipped(c: ConfigModel, s: PassModel, b: bool)
    requires
        wf(c, s),
        s.phase is Putting,
    ensures
        ({
            let (s2, a) = step_model(c, s, EventModel::PutDone(b));
            let wl = wanted_of(c, s.key, s.zone).len() as int;
            let stop = if a is PutRecord {
                s2.index
            } else {
                wl
            };
            forall|p: int|
                s.index < p < stop ==> !(p < s.zone_records.len() && needs_update_model(
                    s.zone_records[p],
                    s.cur_ip,
                ))
        }),
{
    lemma_record_entry_complete(c, s.cur_ip, s.key, s.zone, s.zone_records, s.index + 1);
}

/// A record-update failure never changes what the engine does next: the
/// step after a failed update equals the step after a successful one, so
/// every remaining record, zone and credential is still attempted.
pub proof fn lemma_update_failure_isolated(c: ConfigModel, s: PassModel)
    ensures
        step_model(c, s, EventModel::PutDone(false)) == step_model(
            c,
            s,
            EventModel::PutDone(true),
        ),
{
}

/// A zone-fetch failure abandons only that zone: the machine proceeds
/// exactly as if the zone had come back with no records at all, so
/// sibling zones and credentials are still fetched.
pub proof fn lemma_fetch_failure_isolated(c: ConfigModel, s: PassModel)
    requires
        wf(c, s),
        s.phase is Fetching,
    ensures
        step_model(c, s, EventModel::FetchErr) == step_model(
            c,
            s,
            EventModel::FetchOk(Seq::empty()),
        ),
{
    let w = wanted_of(c, s.key, s.zone);
    assert(filtered(Seq::empty(), w) =~= Seq::<RecordModel>::empty());
    let wl = w.len() as int;
    lemma_seek_record(Seq::empty(), s.cur_ip, wl, 0);
}

/// Every record of a filtered sequence keeps a property that every record
/// of the source sequence has.
proof fn lemma_filtered_all_skip(
    records: Seq<RecordModel>,
    wanted: Seq<Seq<char>>,
    ip: Seq<char>,
)
    requires
        forall|i: int| 0 <= i < records.len() ==> !needs_update_model(records[i], ip),
    ensures
        forall|i: int|
            0 <= i < filtered(records, wanted).len() ==> !needs_update_model(
                filtered(records, wanted)[i],
                ip,
            ),
    decreases records.len(),
{
    if records.len() > 0 {
        assert(forall|i: int|
            0 <= i < records.drop_last().len() ==> !needs_update_model(
                records.drop_last()[i],
                ip,
            ));
        lemma_filtered_all_skip(records.drop_last(), wanted, ip);
        let rest = filtered(records.drop_last(), wanted);
        let f = filtered(records, wanted);
        if name_wanted(wanted, records.last().name) {
            assert(f == rest.push(records.last()));
            assert(!needs_update_model(records[records.len() - 1], ip));
            assert forall|i: int| 0 <= i < f.len() implies !needs_update_model(f[i], ip) by {
                if i < rest.len() {
                    assert(f[i] == rest[i]);
                } else {
                    assert(f[i] == records.last());
                }
            }
        } else {
            assert(f == rest);
        }
    }
}

/// Idempotence of a converged zone: when every fetched record is locked
/// or already holds the current IP, the zone gets no update request — the
/// machine moves past it exactly as on a fetch failure.
pub proof fn lemma_converged_zone_skipped(c: ConfigModel, s: PassModel, recs: Seq<RecordModel>)
    requires
        wf(c, s),
        s.phase is Fetching,
        forall|i: int| 0 <= i < recs.len() ==> !needs_update_model(recs[i], s.cur_ip),
    ensures
        step_model(c, s, EventModel::FetchOk(recs)) == step_model(c, s, EventModel::FetchErr),
{
    let w = wanted_of(c, s.key, s.zone);
    let f = filtered(recs, w);
    lemma_filtered_all_skip(recs, w, s.cur_ip);
    let wl = w.len() as int;
    lemma_seek_record(f, s.cur_ip, wl, 0);
    assert(seek_record_model(f, s.cur_ip, wl, 0) == wl);
}

/// The trace of actions the machine requests when driven from state `s`
/// by the given events.
pub open spec fn model_run(c: ConfigModel, s: PassModel, evs: Seq<EventModel>) -> Seq<ActionModel>
    decreases evs.len(),
{
    if evs.len() == 0 {
        Seq::empty()
    } else {
        let (s2, a) = step_model(c, s, evs[0]);
        seq![a] + model_run(c, s2, evs.drop_first())
    }
}

proof fn lemma_done_requests_nothing(c: ConfigModel, s: PassModel, evs: Seq<EventModel>)
    requires
        s.phase is Done,
    ensures
        forall|i: int|
            0 <= i < model_run(c, s, evs).len() ==> !(model_run(c, s, evs)[i] is PutRecord),
    decreases evs.len(),
{
    if evs.len() > 0 {
        let (s2, a) = step_model(c, s, evs[0]);
        assert(s2 == s);
        assert(a == ActionModel::Finished);
        lemma_done_requests_nothing(c, s2, evs.drop_first());
        let r = model_run(c, s, evs);
        let rest = model_run(c, s2, evs.drop_first());
        assert forall|i: int| 0 <= i < r.len() implies !(r[i] is PutRecord) by {
            if i > 0 {
                assert(r[i] == rest[i - 1]);
            } else {
                assert(r[0] == a);
            }
        }
    }
}

/// An IP-resolution failure yields a pass with zero update calls: however
/// the pass is driven afterwards, a run that starts with a failed IP
/// lookup never requests an update.
pub proof fn lemma_ip_failure_no_updates(c: ConfigModel, s: PassModel, evs: Seq<EventModel>)
    requires
        s.phase is ResolvingIp,
    ensures
        forall|i: int|
            0 <= i < model_run(c, s, seq![EventModel::IpErr] + evs).len() ==> !(model_run(
                c,
                s,
                seq![EventModel::IpErr] + evs,
            )[i] is PutRecord),
{
    let full = seq![EventModel::IpErr] + evs;
    assert(full[0] == EventModel::IpErr);
    let (s2, a) = step_model(c, s, full[0]);
    assert(s2.phase is Done);
    assert(a == ActionModel::Finished);
    assert(full.drop_first() =~= evs);
    lemma_done_requests_nothing(c, s2, evs);
    let r = model_run(c, s, full);
    let rest = model_run(c, s2, evs);
    assert forall|i: int| 0 <= i < r.len() implies !(r[i] is PutRecord) by {
        if i > 0 {
            assert(r[i] == rest[i - 1]);
        } else {
            assert(r[0] == a);
        }
    }
}

#[verifier::loop_isolation(false)]
fn seek_zone(config: &Config, k: usize, z: usize) -> (r: (usize, usize))
    requires
        k <= config.deep_view().keys.len(),
    ensures
        (r.0 as int, r.1 as int) == seek_zone_model(config.deep_view(), k as int, z as int),
{
    let ghost c = config.deep_view();
    let mut kk = k;
    let mut zz = z;
    while kk < config.keys.len() && !(zz < config.keys[kk].zones.len())
        invariant
            kk <= c.keys.len(),
            seek_zone_model(c, kk as int, zz as int) == seek_zone_model(c, k as int, z as int),
        decreases c.keys.len() - kk,
    {
        proof {
            assert(c.keys[kk as int] == config.keys@[kk as int].deep_view());
            assert(seek_zone_model(c, kk as int, zz as int) == seek_zone_model(c, kk + 1, 0));
        }
        kk = kk + 1;
        zz = 0;
    }
    if kk < config.keys.len() {
        proof {
            assert(c.keys[kk as int] == config.keys@[kk as int].deep_view());
            assert(seek_zone_model(c, kk as int, zz as int) == (kk as int, zz as int));
        }
        (kk, zz)
    } else {
        proof {
            assert(seek_zone_model(c, kk as int, zz as int) == (c.keys.len() as int, 0int));
        }
        (kk, 0)
    }
}

#[verifier::loop_isolation(false)]
fn seek_record(recs: &Vec<DNSRecordResult>, ip: &String, wanted_len: usize, start: usize) -> (j:
    usize)
    requires
        start <= wanted_len,
    ensures
        j as int == seek_record_model(recs.deep_view(), ip@, wanted_len as int, start as int),
        start <= j <= wanted_len,
{
    let ghost m = recs.deep_view();
    let mut i = start;
    loop
        invariant
            start <= i <= wanted_len,
            seek_record_model(m, ip@, wanted_len as int, i as int) == seek_record_model(
                m,
                ip@,
                wanted_len as int,
                start as int,
            ),
        decreases wanted_len - i,
    {
        if i >= wanted_len {
            return i;
        }
        if i < recs.len() {
            proof {
                assert(m[i as int] == recs@[i as int].deep_view());
            }
            if needs_update(&recs[i], ip) {
                proof {
                    assert(seek_record_model(m, ip@, wanted_len as int, i as int) == i as int);
                }
                return i;
            }
        }
        proof {
            assert(seek_record_model(m, ip@, wanted_len as int, i as int) == seek_record_model(
                m,
                ip@,
                wanted_len as int,
                i + 1,
            ));
        }
        i = i + 1;
    }
}

fn zone_entry(config: &Config, cur_ip: String, k: usize, z: usize) -> (r: (Pass, Action))
    requires
        k <= config.deep_view().keys.len(),
    ensures
        r.0.deep_view() == zone_entry_model(config.deep_view(), cur_ip@, k as int, z as int).0,
        r.1.deep_view() == zone_entry_model(config.deep_view(), cur_ip@, k as int, z as int).1,
{
    let ghost c = config.deep_view();
    let ghost ipv = cur_ip@;
    let (k2, z2) = seek_zone(config, k, z);
    let zr: Vec<DNSRecordResult> = Vec::new();
    proof {
        assert(zr.deep_view() =~= Seq::<RecordModel>::empty());
    }
    if k2 < config.keys.len() {
        let p = Pass {
            phase: Phase::Fetching,
            cur_ip,
            key: k2,
            zone: z2,
            index: 0,
            zone_records: zr,
        };
        let a = Action::FetchZone { key: k2, zone: z2 };
        proof {
            assert(p.deep_view() == zone_entry_model(c, ipv, k as int, z as int).0);
            assert(a.deep_view() == zone_entry_model(c, ipv, k as int, z as int).1);
        }
        (p, a)
    } else {
        let p = Pass { phase: Phase::Done, cur_ip, key: k2, zone: 0, index: 0, zone_records: zr };
        proof {
            assert(p.deep_view() == zone_entry_model(c, ipv, k as int, z as int).0);
        }
        (p, Action::Finished)
    }
}

fn record_entry(
    config: &Config,
    cur_ip: String,
    k: usize,
    z: usize,
    recs: Vec<DNSRecordResult>,
    i: usize,
) -> (r: (Pass, Action))
    requires
        (k as int) < config.deep_view().keys.len(),
        (z as int) < config.deep_view().keys[k as int].zones.len(),
        (i as int) <= wanted_of(config.deep_view(), k as int, z as int).len(),
    ensures
        r.0.deep_view() == record_entry_model(
            config.deep_view(),
            cur_ip@,
            k as int,
            z as int,
            recs.deep_view(),
            i as int,
        ).0,
        r.1.deep_view() == record_entry_model(
            config.deep_view(),
            cur_ip@,
            k as int,
            z as int,
            recs.deep_view(),
            i as int,
        ).1,
{
    let ghost c = config.deep_view();
    let ghost ipv = cur_ip@;
    let ghost m = recs.deep_view();
    proof {
        assert(c.keys[k as int] == config.keys@[k as int].deep_view());
        assert(c.keys[k as int].zones[z as int] == config.keys@[k as int].zones@[
            z as int].deep_view());
    }
    let wanted_len = config.keys[k].zones[z].records.len();
    proof {
        assert(wanted_len as int == wanted_of(c, k as int, z as int).len());
    }
    let j = seek_record(&recs, &cur_ip, wanted_len, i);
    if j < wanted_len {
        proof {
            lemma_seek_record(m, ipv, wanted_len as int, i as int);
            assert(m[j as int] == recs@[j as int].deep_view());
        }
        let payload = update_payload(&recs[j], &cur_ip);
        let zone_id = recs[j].zone_id.clone();
        let record_id = recs[j].id.clone();
        let p = Pass { phase: Phase::Putting, cur_ip, key: k, zone: z, index: j, zone_records: recs };
        let a = Action::PutRecord { key: k, zone: z, index: j, zone_id, record_id, payload };
        proof {
            assert(p.deep_view() == record_entry_model(c, ipv, k as int, z as int, m, i as int).0);
            assert(a.deep_view() == record_entry_model(c, ipv, k as int, z as int, m, i as int).1);
        }
        (p, a)
    } else {
        proof {
            assert(config.keys@[k as int].zones@.len() == config.keys@[k as int].zones.len());
        }
        zone_entry(config, cur_ip, k, z + 1)
    }
}

/// Starts a reconciliation pass: the machine first wants the current IP.
pub fn pass_init() -> (r: (Pass, Action))
    ensures
        r.0.deep_view() == init_model(),
        r.1.deep_view() == ActionModel::ResolveIp,
{
    let zr: Vec<DNSRecordResult> = Vec::new();
    let p = Pass {
        phase: Phase::ResolvingIp,
        cur_ip: String::new(),
        key: 0,
        zone: 0,
        index: 0,
        zone_records: zr,
    };
    proof {
        assert(p.deep_view().zone_records =~= Seq::<RecordModel>::empty());
        assert(p.deep_view() == init_model());
    }
    (p, Action::ResolveIp)
}

/// One step of the engine: consumes the outcome of the last action and
/// returns the next state and the next action. Performs no I/O itself;
/// it follows `step_model` exactly, so a step from a well-formed state
/// stays well-formed and any update it requests is sound.
pub fn pass_step(config: &Config, state: Pass, event: Event) -> (r: (Pass, Action))
    requires
        wf(config.deep_view(), state.deep_view()),
        accepts(state.deep_view(), event.deep_view()),
    ensures
        r.0.deep_view() == step_model(config.deep_view(), state.deep_view(), event.deep_view()).0,
        r.1.deep_view() == step_model(config.deep_view(), state.deep_view(), event.deep_view()).1,
        wf(config.deep_view(), r.0.deep_view()),
        put_action_sound(config.deep_view(), r.0.deep_view(), r.1.deep_view()),
{
    proof {
        lemma_step_model_sound(config.deep_view(), state.deep_view(), event.deep_view());
    }
    let ghost c = config.deep_view();
    let ghost s0 = state.deep_view();
    let ghost e0 = event.deep_view();
    let Pass { phase, cur_ip, key, zone, index, zone_records } = state;
    match phase {
        Phase::ResolvingIp => {
            match event {
                Event::IpOk(ip) => zone_entry(config, ip, 0, 0),
                Event::IpErr => {
                    let p = Pass { phase: Phase::Done, cur_ip, key, zone, index, zone_records };
                    proof {
                        assert(p.deep_view() == step_model(c, s0, e0).0);
                    }
                    (p, Action::Finished)
                },
                _ => {
                    let p = Pass { phase, cur_ip, key, zone, index, zone_records };
                    proof {
                        assert(p.deep_view() == s0);
                    }
                    (p, Action::Finished)
                },
            }
        },
        Phase::Fetching => {
            match event {
                Event::FetchOk(recs) => {
                    proof {
                        assert(c.keys[key as int] == config.keys@[key as int].deep_view());
                        assert(c.keys[key as int].zones[zone as int] == config.keys@[
                            key as int].zones@[zone as int].deep_view());
                    }
                    let narrowed = filter_wanted(recs, &config.keys[key].zones[zone].records);
                    record_entry(config, cur_ip, key, zone, narrowed, 0)
                },
                Event::FetchErr => {
                    proof {
                        assert(c.keys[key as int] == config.keys@[key as int].deep_view());
                        assert(config.keys@[key as int].zones@.len() == config.keys@[
                            key as int].zones.len());
                    }
                    zone_entry(config, cur_ip, key, zone + 1)
                },
                _ => {
                    let p = Pass { phase, cur_ip, key, zone, index, zone_records };
                    proof {
                        assert(p.deep_view() == s0);
                    }
                    (p, Action::Finished)
                },
            }
        },
        Phase::Putting => {
            match event {
                Event::PutDone(_) => {
                    proof {
                        assert(c.keys[key as int] == config.keys@[key as int].deep_view());
                        assert(c.keys[key as int].zones[zone as int] == config.keys@[
                            key as int].zones@[zone as int].deep_view());
                        assert(config.keys@[key as int].zones@[zone as int].records@.len()
                            == config.keys@[key as int].zones@[zone as int].records.len());
                    }
                    record_entry(config, cur_ip, key, zone, zone_records, index + 1)
                },
                _ => {
                    let p = Pass { phase, cur_ip, key, zone, index, zone_records };
                    proof {
                        assert(p.deep_view() == s0);
                    }
                    (p, Action::Finished)
                },
            }
        },
        Phase::Done => {
            let p = Pass { phase, cur_ip, key, zone, index, zone_records };
            proof {
                assert(p.deep_view() == s0);
            }
            (p, Action::Finished)
        },
    }
}

} // verus!
