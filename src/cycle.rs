//! Persisting the records of a cycle.

use vstd::prelude::*;
use crate::parse::{PriceChange, RefuelStation, RefuelStationPriceChange};
use crate::price::{amount_of_display, valid_display};
use crate::store::{
    change_index, find_or_create_station, lemma_record_observation_valid, record_observation,
    station_index, valid_store, NewPriceChange, NewStation, StationView, Store, StoreView, MAX_ROWS,
};

verus! {

/// A saved record, with the id of its station.
#[derive(Debug, Clone, PartialEq, Eq)]
pub struct RefuelStationPriceChangeWithId {
    pub id: i32,
    pub station: RefuelStation,
    pub price_change: PriceChange,
}

/// The station of a record as the store keys it.
pub open spec fn station_key(rec: RefuelStationPriceChange) -> StationView {
    StationView { name: rec.station.name@, addr: rec.station.addr@ }
}

/// Saving a record: its station is found or created, then its observation is
/// recorded unless already present. The result is the station's id, `None`
/// when the store had no room, and the store afterwards.
pub open spec fn save_record(m: StoreView, rec: RefuelStationPriceChange) -> (Option<int>, StoreView) {
    let (sid, m1) = find_or_create_station(m, station_key(rec));
    match sid {
        None => (None, m1),
        Some(id) => {
            let (oid, m2) = record_observation(
                m1,
                id,
                rec.price_change.updated as int,
                amount_of_display(rec.price_change.price),
            );
            (if oid is Some { Some(id) } else { None }, m2)
        },
    }
}

/// The store after saving `recs` in order.
pub open spec fn save_all(m: StoreView, recs: Seq<RefuelStationPriceChange>) -> StoreView
    decreases recs.len(),
{
    if recs.len() == 0 {
        m
    } else {
        save_all(save_record(m, recs[0]).1, recs.drop_first())
    }
}

impl RefuelStationPriceChange {
    /// Saves the record: its station first, then its observation.
    pub fn save(self, store: &mut Store) -> (r: Option<RefuelStationPriceChangeWithId>)
        requires
            old(store).wf(),
            valid_display(self.price_change.price),
        ensures
            final(store).wf(),
            final(store)@ == save_record(old(store)@, self).1,
            r is Some <==> save_record(old(store)@, self).0 is Some,
            r matches Some(w) ==> save_record(old(store)@, self).0 == Some(w.id as int) && w.station == self.station
                && w.price_change == self.price_change,
    {
        let sid = NewStation { name: self.station.name.as_str(), addr: self.station.addr.as_str() }.save(store);
        let id = match sid {
            Some(id) => id,
            None => return None,
        };
        proof {
            store.lemma_wf_valid();
        }
        let amount = self.price_change.convert_to_subcent();
        let oid = NewPriceChange { station_id: id, updated: self.price_change.updated, price: amount }.save(store);
        match oid {
            Some(_) => Some(RefuelStationPriceChangeWithId { id, station: self.station, price_change: self.price_change }),
            None => None,
        }
    }
}

/// The counts of a cycle: records extracted, and observations newly stored.
#[derive(Debug, Clone, Copy, PartialEq, Eq)]
pub struct CycleReport {
    pub fetched: usize,
    pub saved: usize,
}

/// Persists the records of a cycle in order, or, in a dry run, nothing.
pub fn persist(records: Vec<RefuelStationPriceChange>, store: &mut Store, dry_run: bool) -> (r: CycleReport)
    requires
        old(store).wf(),
        forall|i: int| 0 <= i < records@.len() ==> valid_display(#[trigger] records@[i].price_change.price),
    ensures
        final(store).wf(),
        r.fetched == records@.len(),
        dry_run ==> final(store)@ == old(store)@ && r.saved == 0,
        !dry_run ==> final(store)@ == save_all(old(store)@, records@),
        !dry_run ==> r.saved == final(store)@.changes.len() - old(store)@.changes.len(),
{
    let fetched = records.len();
    if dry_run {
        return CycleReport { fetched, saved: 0 };
    }
    let ghost m0 = store@;
    let before = store.price_changes().len();
    let mut rest = records;
    while rest.len() > 0
        invariant
            store.wf(),
            save_all(store@, rest@) == save_all(m0, records@),
            store@.changes.len() >= m0.changes.len(),
            before == m0.changes.len(),
            forall|i: int| 0 <= i < rest@.len() ==> valid_display(#[trigger] rest@[i].price_change.price),
        decreases rest@.len(),
    {
        let ghost prev = rest@;
        let rec = rest.remove(0);
        assert(prev.drop_first() =~= rest@);
        assert(valid_display(prev[0].price_change.price));
        let _ = rec.save(store);
        assert forall|i: int| 0 <= i < rest@.len() implies valid_display(#[trigger] rest@[i].price_change.price) by {
            assert(rest@[i] == prev[i + 1]);
        }
    }
    let after = store.price_changes().len();
    CycleReport { fetched, saved: after - before }
}

/// `rec` needs nothing more from `m`: its station and its observation are
/// stored, or the store has no room left for what is missing.
pub open spec fn settled(m: StoreView, rec: RefuelStationPriceChange) -> bool {
    match station_index(m, station_key(rec)) {
        None => m.stations.len() >= MAX_ROWS,
        Some(i) => change_index(m, i + 1, rec.price_change.updated as int) is Some || m.changes.len() >= MAX_ROWS,
    }
}

/// `m2` holds the rows of `m`, at the same positions, and maybe more.
pub open spec fn extends(m: StoreView, m2: StoreView) -> bool {
    &&& m.stations.len() <= m2.stations.len()
    &&& m.changes.len() <= m2.changes.len()
    &&& forall|i: int| 0 <= i < m.stations.len() ==> #[trigger] m2.stations[i] == m.stations[i]
    &&& forall|i: int| 0 <= i < m.changes.len() ==> #[trigger] m2.changes[i] == m.changes[i]
}

proof fn lemma_station_found(m: StoreView, key: StationView, i: int)
    requires
        valid_store(m),
        0 <= i < m.stations.len(),
        m.stations[i] == key,
    ensures
        station_index(m, key) == Some(i),
{
    let k = choose|k: int| 0 <= k < m.stations.len() && m.stations[k] == key;
    if k < i {
        assert(m.stations[k] != m.stations[i]);
    } else if k > i {
        assert(m.stations[i] != m.stations[k]);
    }
}

proof fn lemma_find_or_create_valid(m: StoreView, key: StationView)
    requires
        valid_store(m),
    ensures
        valid_store(find_or_create_station(m, key).1),
        extends(m, find_or_create_station(m, key).1),
        find_or_create_station(m, key).0 matches Some(id) ==> 1 <= id <= find_or_create_station(m, key).1.stations.len()
            && find_or_create_station(m, key).1.stations[id - 1] == key,
        find_or_create_station(m, key).0 is None ==> find_or_create_station(m, key).1 == m && station_index(m, key) is None
            && m.stations.len() >= MAX_ROWS,
{
    let m1 = find_or_create_station(m, key).1;
    if station_index(m, key) is None && m.stations.len() < MAX_ROWS {
        assert forall|i: int, j: int| 0 <= i < j < m1.stations.len() implies #[trigger] m1.stations[i]
            != #[trigger] m1.stations[j] by {
            if j == m.stations.len() {
                assert(m1.stations[i] == m.stations[i]);
            } else {
                assert(m1.stations[i] == m.stations[i] && m1.stations[j] == m.stations[j]);
            }
        }
    }
}

proof fn lemma_save_record(m: StoreView, rec: RefuelStationPriceChange)
    requires
        valid_store(m),
    ensures
        valid_store(save_record(m, rec).1),
        extends(m, save_record(m, rec).1),
        settled(save_record(m, rec).1, rec),
{
    let key = station_key(rec);
    lemma_find_or_create_valid(m, key);
    let (sid, m1) = find_or_create_station(m, key);
    if let Some(id) = sid {
        let upd = rec.price_change.updated as int;
        let amount = crate::price::amount_of_display(rec.price_change.price);
        lemma_record_observation_valid(m1, id, upd, amount);
        let (oid, m2) = record_observation(m1, id, upd, amount);
        assert(m2.stations == m1.stations);
        lemma_station_found(m2, key, id - 1);
        if change_index(m1, id, upd) is None && m1.changes.len() < MAX_ROWS {
            let n = m1.changes.len() as int;
            assert(m2.changes[n].station_id == id && m2.changes[n].updated == upd);
        }
    }
}

proof fn lemma_settled_stays(m: StoreView, m2: StoreView, rec: RefuelStationPriceChange)
    requires
        valid_store(m),
        valid_store(m2),
        extends(m, m2),
        settled(m, rec),
    ensures
        settled(m2, rec),
{
    let key = station_key(rec);
    match station_index(m, key) {
        Some(i) => {
            lemma_station_found(m2, key, i);
            let upd = rec.price_change.updated as int;
            if change_index(m, i + 1, upd) is Some {
                let c = change_index(m, i + 1, upd)->Some_0;
                assert(m2.changes[c] == m.changes[c]);
            }
        },
        None => {
            assert forall|i: int| 0 <= i < m2.stations.len() implies m2.stations[i] != key by {
                assert(m2.stations[i] == m.stations[i]);
            }
        },
    }
}

proof fn lemma_save_all_settles(m: StoreView, recs: Seq<RefuelStationPriceChange>)
    requires
        valid_store(m),
    ensures
        valid_store(save_all(m, recs)),
        extends(m, save_all(m, recs)),
        forall|k: int| 0 <= k < recs.len() ==> settled(save_all(m, recs), #[trigger] recs[k]),
    decreases recs.len(),
{
    if recs.len() > 0 {
        lemma_save_record(m, recs[0]);
        let m1 = save_record(m, recs[0]).1;
        let rest = recs.drop_first();
        lemma_save_all_settles(m1, rest);
        let mm = save_all(m1, rest);
        lemma_settled_stays(m1, mm, recs[0]);
        assert forall|k: int| 0 <= k < recs.len() implies settled(mm, #[trigger] recs[k]) by {
            if k > 0 {
                assert(recs[k] == rest[k - 1]);
            }
        }
    }
}

proof fn lemma_save_all_settled(m: StoreView, recs: Seq<RefuelStationPriceChange>)
    requires
        forall|k: int| 0 <= k < recs.len() ==> settled(m, #[trigger] recs[k]),
    ensures
        save_all(m, recs) == m,
    decreases recs.len(),
{
    if recs.len() > 0 {
        assert(settled(m, recs[0]));
        assert(save_record(m, recs[0]).1 == m);
        let rest = recs.drop_first();
        assert forall|k: int| 0 <= k < rest.len() implies settled(m, #[trigger] rest[k]) by {
            assert(rest[k] == recs[k + 1]);
        }
        lemma_save_all_settled(m, rest);
    }
}

/// Persisting the same batch of records again changes nothing: re-running
/// extraction over an unchanged page does not grow the store.
pub proof fn lemma_persist_again_unchanged(m: StoreView, recs: Seq<RefuelStationPriceChange>)
    requires
        valid_store(m),
    ensures
        save_all(save_all(m, recs), recs) == save_all(m, recs),
{
    lemma_save_all_settles(m, recs);
    lemma_save_all_settled(save_all(m, recs), recs);
}

} // verus!
