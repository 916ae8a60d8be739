//! The observation store: stations, identified by name and address, and the
//! prices observed at them, identified by station and instant.
//!
//! Rows are only ever added. The surrogate id of a row is its position plus
//! one, assigned when it is inserted. Inserting is idempotent: a station
//! already present, or an observation of a station at an instant already
//! recorded, is found again instead of being duplicated.

use vstd::prelude::*;
use crate::order::{compare_text, lemma_text_less_total, text_less};

verus! {

/// Most rows of each kind: ids are positive `i32`s.
pub const MAX_ROWS: usize = 0x7fff_ffff;

/// A stored station.
#[derive(Debug, Clone, PartialEq, Eq)]
pub struct Station {
    pub id: i32,
    pub name: String,
    pub addr: String,
}

/// A stored observation: the price of a station at an instant (seconds since
/// the Unix epoch), in thousandths.
#[derive(Debug, Clone, Copy, PartialEq, Eq)]
pub struct PriceChange {
    pub id: i32,
    pub station_id: i32,
    pub updated: i64,
    pub price: i32,
}

/// A station of the model: its name and address.
pub struct StationView {
    pub name: Seq<char>,
    pub addr: Seq<char>,
}

/// An observation of the model.
pub struct ChangeView {
    pub station_id: int,
    pub updated: int,
    pub price: int,
}

/// The contents of a store: the row with id `i` of each kind is at position
/// `i - 1`.
pub struct StoreView {
    pub stations: Seq<StationView>,
    pub changes: Seq<ChangeView>,
}

/// The invariants of a store: at most `MAX_ROWS` rows of each kind, stations
/// unique by name and address, observations unique by station and instant,
/// each observation of a stored station and with a non-negative price.
pub open spec fn valid_store(m: StoreView) -> bool {
    &&& m.stations.len() <= MAX_ROWS
    &&& m.changes.len() <= MAX_ROWS
    &&& forall|i: int, j: int|
        0 <= i < j < m.stations.len() ==> #[trigger] m.stations[i] != #[trigger] m.stations[j]
    &&& forall|i: int, j: int|
        0 <= i < j < m.changes.len() ==> !same_observation(#[trigger] m.changes[i], #[trigger] m.changes[j])
    &&& forall|i: int|
        0 <= i < m.changes.len() ==> 1 <= #[trigger] m.changes[i].station_id <= m.stations.len()
            && m.changes[i].price >= 0
}

pub open spec fn same_observation(a: ChangeView, b: ChangeView) -> bool {
    a.station_id == b.station_id && a.updated == b.updated
}

/// Position of the station `key`, if stored.
pub open spec fn station_index(m: StoreView, key: StationView) -> Option<int> {
    if exists|i: int| 0 <= i < m.stations.len() && m.stations[i] == key {
        Some(choose|i: int| 0 <= i < m.stations.len() && m.stations[i] == key)
    } else {
        None
    }
}

/// Position of the observation of `station_id` at `updated`, if stored.
pub open spec fn change_index(m: StoreView, station_id: int, updated: int) -> Option<int> {
    if exists|i: int|
        0 <= i < m.changes.len() && m.changes[i].station_id == station_id && m.changes[i].updated
            == updated {
        Some(
            choose|i: int|
                0 <= i < m.changes.len() && m.changes[i].station_id == station_id
                    && m.changes[i].updated == updated,
        )
    } else {
        None
    }
}

/// Finding or creating a station: its id and the store afterwards. `None`
/// only when the station is new and the store is full.
pub open spec fn find_or_create_station(m: StoreView, key: StationView) -> (Option<int>, StoreView) {
    match station_index(m, key) {
        Some(i) => (Some(i + 1), m),
        None => if m.stations.len() < MAX_ROWS {
            (Some(m.stations.len() + 1int), StoreView { stations: m.stations.push(key), changes: m.changes })
        } else {
            (None, m)
        },
    }
}

/// Recording an observation: its id and the store afterwards. An observation
/// of the station at that instant already stored is kept as it is, and its id
/// returned. `None` only when the observation is new and the store is full.
pub open spec fn record_observation(m: StoreView, station_id: int, updated: int, price: int) -> (
    Option<int>,
    StoreView,
) {
    match change_index(m, station_id, updated) {
        Some(i) => (Some(i + 1), m),
        None => if m.changes.len() < MAX_ROWS {
            (
                Some(m.changes.len() + 1int),
                StoreView {
                    stations: m.stations,
                    changes: m.changes.push(ChangeView { station_id, updated, price }),
                },
            )
        } else {
            (None, m)
        },
    }
}

pub open spec fn id_view(r: Option<i32>) -> Option<int> {
    match r {
        Some(id) => Some(id as int),
        None => None,
    }
}

/// An in-memory store of stations and observations.
pub struct Store {
    stations: Vec<Station>,
    price_changes: Vec<PriceChange>,
}

impl View for Store {
    type V = StoreView;

    closed spec fn view(&self) -> StoreView {
        StoreView {
            stations: self.stations@.map_values(|s: Station| StationView { name: s.name@, addr: s.addr@ }),
            changes: self.price_changes@.map_values(
                |c: PriceChange|
                    ChangeView { station_id: c.station_id as int, updated: c.updated as int, price: c.price as int },
            ),
        }
    }
}

impl Store {
    /// The store's invariants hold, and each row's id is its position plus one.
    pub closed spec fn wf(&self) -> bool {
        &&& valid_store(self@)
        &&& forall|i: int| 0 <= i < self.stations@.len() ==> #[trigger] self.stations@[i].id == i + 1
        &&& forall|i: int| 0 <= i < self.price_changes@.len() ==> #[trigger] self.price_changes@[i].id == i + 1
    }

    /// An empty store.
    pub fn new() -> (r: Store)
        ensures
            r.wf(),
            r@.stations.len() == 0,
            r@.changes.len() == 0,
    {
        let r = Store { stations: Vec::new(), price_changes: Vec::new() };
        assert(r@.stations =~= Seq::<StationView>::empty());
        assert(r@.changes =~= Seq::<ChangeView>::empty());
        r
    }

    pub proof fn lemma_wf_valid(&self)
        requires
            self.wf(),
        ensures
            valid_store(self@),
    {
    }

    /// The stations, in order of their ids.
    pub fn stations(&self) -> (r: &Vec<Station>)
        requires
            self.wf(),
        ensures
            r@.len() == self@.stations.len(),
            forall|i: int| 0 <= i < r@.len() ==> {
                &&& #[trigger] r@[i].id == i + 1
                &&& r@[i].name@ == self@.stations[i].name
                &&& r@[i].addr@ == self@.stations[i].addr
            },
    {
        &self.stations
    }

    /// The observations, in order of their ids.
    pub fn price_changes(&self) -> (r: &Vec<PriceChange>)
        requires
            self.wf(),
        ensures
            r@.len() == self@.changes.len(),
            forall|i: int| 0 <= i < r@.len() ==> {
                &&& #[trigger] r@[i].id == i + 1
                &&& r@[i].station_id == self@.changes[i].station_id
                &&& r@[i].updated == self@.changes[i].updated
                &&& r@[i].price == self@.changes[i].price
            },
    {
        &self.price_changes
    }
}

/// A station to find or create.
pub struct NewStation<'a> {
    pub name: &'a str,
    pub addr: &'a str,
}

impl<'a> NewStation<'a> {
    pub open spec fn key(&self) -> StationView {
        StationView { name: self.name@, addr: self.addr@ }
    }

    /// The id of the station with this name and address, inserted first if
    /// the store has none.
    pub fn save(self, store: &mut Store) -> (r: Option<i32>)
        requires
            old(store).wf(),
        ensures
            final(store).wf(),
            (id_view(r), final(store)@) == find_or_create_station(old(store)@, self.key()),
    {
        let ghost m = store@;
        let n = store.stations.len();
        let mut i: usize = 0;
        while i < n
            invariant
                n == store.stations@.len(),
                store@ == m,
                store.wf(),
                i <= n,
                forall|j: int| 0 <= j < i ==> m.stations[j] != self.key(),
            decreases n - i,
        {
            let s = &store.stations[i];
            if compare_text(s.name.as_str(), self.name) == 0 && compare_text(s.addr.as_str(), self.addr) == 0 {
                assert(m.stations[i as int] == self.key());
                proof {
                    let k = choose|k: int| 0 <= k < m.stations.len() && m.stations[k] == self.key();
                    assert(k == i) by {
                        if k < i {
                        } else if k > i {
                            assert(m.stations[i as int] != m.stations[k]);
                        }
                    }
                }
                return Some(s.id);
            }
            i = i + 1;
        }
        if n >= MAX_ROWS {
            return None;
        }
        let id = (n + 1) as i32;
        store.stations.push(Station { id, name: String::from_str(self.name), addr: String::from_str(self.addr) });
        assert(store@.stations =~= m.stations.push(self.key()));
        assert(store@.changes =~= m.changes);
        Some(id)
    }
}

/// An observation to record.
pub struct NewPriceChange {
    pub station_id: i32,
    pub updated: i64,
    pub price: i32,
}

impl NewPriceChange {
    /// The id of the observation of the station at this instant, recorded
    /// first if the store has none; an observation already recorded keeps its
    /// price.
    pub fn save(self, store: &mut Store) -> (r: Option<i32>)
        requires
            old(store).wf(),
            1 <= self.station_id <= old(store)@.stations.len(),
            self.price >= 0,
        ensures
            final(store).wf(),
            (id_view(r), final(store)@) == record_observation(
                old(store)@,
                self.station_id as int,
                self.updated as int,
                self.price as int,
            ),
    {
        let ghost m = store@;
        let n = store.price_changes.len();
        let mut i: usize = 0;
        while i < n
            invariant
                n == store.price_changes@.len(),
                store@ == m,
                store.wf(),
                i <= n,
                forall|j: int|
                    0 <= j < i ==> !(m.changes[j].station_id == self.station_id && m.changes[j].updated
                        == self.updated),
            decreases n - i,
        {
            let c = store.price_changes[i];
            if c.station_id == self.station_id && c.updated == self.updated {
                assert(m.changes[i as int].station_id == self.station_id);
                proof {
                    let k = choose|k: int|
                        0 <= k < m.changes.len() && m.changes[k].station_id == self.station_id
                            && m.changes[k].updated == self.updated;
                    assert(k == i) by {
                        if k > i {
                            assert(!same_observation(m.changes[i as int], m.changes[k]));
                        }
                    }
                }
                return Some(c.id);
            }
            i = i + 1;
        }
        if n >= MAX_ROWS {
            return None;
        }
        let id = (n + 1) as i32;
        let ghost v = ChangeView {
            station_id: self.station_id as int,
            updated: self.updated as int,
            price: self.price as int,
        };
        store.price_changes.push(
            PriceChange { id, station_id: self.station_id, updated: self.updated, price: self.price },
        );
        assert(store@.changes =~= m.changes.push(v));
        assert(store@.stations =~= m.stations);
        Some(id)
    }
}

/// Recording an observation keeps a store valid.
pub proof fn lemma_record_observation_valid(m: StoreView, station_id: int, updated: int, price: int)
    requires
        valid_store(m),
        1 <= station_id <= m.stations.len(),
        price >= 0,
    ensures
        valid_store(record_observation(m, station_id, updated, price).1),
{
    let m1 = record_observation(m, station_id, updated, price).1;
    if change_index(m, station_id, updated) is None && m.changes.len() < MAX_ROWS {
        let v = ChangeView { station_id, updated, price };
        assert forall|i: int, j: int| 0 <= i < j < m1.changes.len() implies !same_observation(
            #[trigger] m1.changes[i],
            #[trigger] m1.changes[j],
        ) by {
            if j == m.changes.len() {
                assert(m1.changes[i] == m.changes[i]);
            } else {
                assert(m1.changes[i] == m.changes[i] && m1.changes[j] == m.changes[j]);
            }
        }
        assert forall|i: int| 0 <= i < m1.changes.len() implies 1 <= #[trigger] m1.changes[i].station_id
            <= m1.stations.len() && m1.changes[i].price >= 0 by {
            if i < m.changes.len() {
                assert(m1.changes[i] == m.changes[i]);
            }
        }
    }
}

/// Recording the same observation twice stores it once: the second call
/// changes nothing and returns the id that the first returned, and that id
/// is the only row of the station at that instant.
pub proof fn lemma_record_observation_idempotent(m: StoreView, station_id: int, updated: int, price: int)
    requires
        valid_store(m),
    ensures
        ({
            let (r1, m1) = record_observation(m, station_id, updated, price);
            let (r2, m2) = record_observation(m1, station_id, updated, price);
            &&& r2 == r1
            &&& m2 == m1
            &&& r1 matches Some(id) ==> {
                &&& 1 <= id <= m1.changes.len()
                &&& m1.changes[id - 1].station_id == station_id
                &&& m1.changes[id - 1].updated == updated
                &&& forall|j: int|
                    0 <= j < m1.changes.len() && #[trigger] m1.changes[j].station_id == station_id
                        && m1.changes[j].updated == updated ==> j == id - 1
            }
        }),
{
    let (r1, m1) = record_observation(m, station_id, updated, price);
    match change_index(m, station_id, updated) {
        Some(i) => {
            assert forall|j: int|
                0 <= j < m1.changes.len() && #[trigger] m1.changes[j].station_id == station_id
                    && m1.changes[j].updated == updated implies j == i by {
                if j < i {
                    assert(!same_observation(m.changes[j], m.changes[i]));
                } else if j > i {
                    assert(!same_observation(m.changes[i], m.changes[j]));
                }
            }
        },
        None => {
            if m.changes.len() < MAX_ROWS {
                let n = m.changes.len() as int;
                assert(m1.changes[n].station_id == station_id && m1.changes[n].updated == updated);
                assert forall|j: int|
                    0 <= j < m1.changes.len() && #[trigger] m1.changes[j].station_id == station_id
                        && m1.changes[j].updated == updated implies j == n by {
                    if j < n {
                        assert(m1.changes[j] == m.changes[j]);
                    }
                }
                let k = choose|k: int|
                    0 <= k < m1.changes.len() && m1.changes[k].station_id == station_id
                        && m1.changes[k].updated == updated;
                assert(k == n);
            }
        },
    }
}

/// Finding or creating the same station twice creates it at most once: the
/// second call changes nothing and returns the id that the first returned.
pub proof fn lemma_find_or_create_idempotent(m: StoreView, key: StationView)
    requires
        valid_store(m),
    ensures
        ({
            let (r1, m1) = find_or_create_station(m, key);
            let (r2, m2) = find_or_create_station(m1, key);
            r2 == r1 && m2 == m1
        }),
{
    let (r1, m1) = find_or_create_station(m, key);
    if station_index(m, key) is None && m.stations.len() < MAX_ROWS {
        let n = m.stations.len() as int;
        assert(m1.stations[n] == key);
        let k = choose|k: int| 0 <= k < m1.stations.len() && m1.stations[k] == key;
        if k < n {
            assert(m1.stations[k] == m.stations[k]);
        }
        assert(k == n);
    }
}

/// A row of a read projection: a station with one of its observations.
#[derive(Debug, Clone, PartialEq, Eq)]
pub struct StationPriceChange {
    pub name: String,
    pub addr: String,
    pub updated: i64,
    pub price: i32,
}

pub struct RowView {
    pub name: Seq<char>,
    pub addr: Seq<char>,
    pub updated: int,
    pub price: int,
}

pub open spec fn row_view(r: StationPriceChange) -> RowView {
    RowView { name: r.name@, addr: r.addr@, updated: r.updated as int, price: r.price as int }
}

pub open spec fn rows_view(s: Seq<StationPriceChange>) -> Seq<RowView> {
    s.map_values(|r: StationPriceChange| row_view(r))
}

/// The observation at position `i` joined with its station.
pub open spec fn history_row(m: StoreView, i: int) -> RowView {
    let c = m.changes[i];
    let s = m.stations[c.station_id - 1];
    RowView { name: s.name, addr: s.addr, updated: c.updated, price: c.price }
}

/// The orders of the projections.
#[derive(Debug, Clone, Copy, PartialEq, Eq)]
pub enum Order {
    /// Newest first, then cheapest first, then by name, then by address.
    History,
    /// By name, then by address.
    ByStation,
    /// Newest first.
    Newest,
}

pub open spec fn names_before(a: RowView, b: RowView) -> bool {
    text_less(a.name, b.name) || (a.name == b.name && text_less(a.addr, b.addr))
}

/// `a` comes strictly before `b` in the order `o`.
pub open spec fn before(o: Order, a: RowView, b: RowView) -> bool {
    match o {
        Order::History => a.updated > b.updated || (a.updated == b.updated && (a.price < b.price || (a.price
            == b.price && names_before(a, b)))),
        Order::ByStation => names_before(a, b),
        Order::Newest => a.updated > b.updated,
    }
}

/// Rows that the order `o` does not tell apart.
pub open spec fn same_key(o: Order, a: RowView, b: RowView) -> bool {
    match o {
        Order::History => a == b,
        Order::ByStation => a.name == b.name && a.addr == b.addr,
        Order::Newest => a.updated == b.updated,
    }
}

pub open spec fn sorted_by(o: Order, s: Seq<RowView>) -> bool {
    forall|k: int| 0 <= k < s.len() - 1 ==> before(o, #[trigger] s[k], s[k + 1])
}

proof fn lemma_before_total(o: Order, a: RowView, b: RowView)
    ensures
        !same_key(o, a, b) ==> before(o, a, b) || before(o, b, a),
{
    lemma_text_less_total(a.name, b.name);
    lemma_text_less_total(a.addr, b.addr);
}

/// Which observations a projection shows.
#[derive(Debug, Clone, Copy, PartialEq, Eq)]
pub enum Selection {
    /// Every observation.
    All,
    /// The observations at the latest instant of their station.
    Latest,
    /// The observations of the station with this id.
    OfStation(i32),
}

/// The observation at position `i` is at the latest instant of its station.
pub open spec fn is_latest(m: StoreView, i: int) -> bool {
    forall|j: int|
        0 <= j < m.changes.len() && #[trigger] m.changes[j].station_id == m.changes[i].station_id
            ==> m.changes[j].updated <= m.changes[i].updated
}

pub open spec fn selected(m: StoreView, sel: Selection, i: int) -> bool {
    match sel {
        Selection::All => true,
        Selection::Latest => is_latest(m, i),
        Selection::OfStation(id) => m.changes[i].station_id == id,
    }
}

/// `s` is the projection of `m` that `sel` selects, in the order `o`: each
/// selected observation joined with its station, once, and strictly sorted.
pub open spec fn is_projection(m: StoreView, sel: Selection, o: Order, s: Seq<RowView>) -> bool {
    &&& sorted_by(o, s)
    &&& forall|k: int| 0 <= k < s.len() ==> #[trigger] from_selected(m, sel, m.changes.len() as int, s[k])
    &&& forall|i: int| 0 <= i < m.changes.len() && #[trigger] selected(m, sel, i) ==> s.contains(history_row(m, i))
}

/// `y` is the row of a selected observation among the first `i`.
pub open spec fn from_selected(m: StoreView, sel: Selection, i: int, y: RowView) -> bool {
    exists|j: int| 0 <= j < i && selected(m, sel, j) && history_row(m, j) == y
}

/// The order that goes with a selection.
pub open spec fn order_of(sel: Selection) -> Order {
    match sel {
        Selection::All => Order::History,
        Selection::Latest => Order::ByStation,
        Selection::OfStation(_) => Order::Newest,
    }
}

/// Distinct selected observations make rows that the selection's order tells
/// apart.
proof fn lemma_selected_distinct(m: StoreView, sel: Selection, i: int, j: int)
    requires
        valid_store(m),
        0 <= i < m.changes.len(),
        0 <= j < m.changes.len(),
        i != j,
        selected(m, sel, i),
        selected(m, sel, j),
    ensures
        !same_key(order_of(sel), history_row(m, i), history_row(m, j)),
{
    let (a, b) = (history_row(m, i), history_row(m, j));
    let (ci, cj) = (m.changes[i], m.changes[j]);
    if a.name == b.name && a.addr == b.addr {
        let (si, sj) = (ci.station_id - 1, cj.station_id - 1);
        assert(m.stations[si] == m.stations[sj]);
        if si < sj {
            assert(m.stations[si] != m.stations[sj]);
        } else if sj < si {
            assert(m.stations[sj] != m.stations[si]);
        }
        assert(ci.station_id == cj.station_id);
        if sel is Latest {
            assert(ci.updated <= cj.updated);
            assert(cj.updated <= ci.updated);
        }
    }
    if ci.station_id == cj.station_id && ci.updated == cj.updated {
        if i < j {
            assert(!same_observation(ci, cj));
        } else {
            assert(!same_observation(cj, ci));
        }
    }
}

fn row_before(o: Order, a: &StationPriceChange, b: &StationPriceChange) -> (r: bool)
    ensures
        r == before(o, row_view(*a), row_view(*b)),
{
    let by_name = {
        let n = compare_text(a.name.as_str(), b.name.as_str());
        n < 0 || (n == 0 && compare_text(a.addr.as_str(), b.addr.as_str()) < 0)
    };
    match o {
        Order::History => a.updated > b.updated || (a.updated == b.updated && (a.price < b.price || (a.price
            == b.price && by_name))),
        Order::ByStation => by_name,
        Order::Newest => a.updated > b.updated,
    }
}

/// `s` is strictly increasing in the order `lt`, neighbour by neighbour.
pub open spec fn sorted_with<T>(lt: spec_fn(T, T) -> bool, s: Seq<T>) -> bool {
    forall|k: int| 0 <= k < s.len() - 1 ==> lt(#[trigger] s[k], s[k + 1])
}

/// Inserts `x` into `v`, strictly sorted by `lt`, at its place, and returns
/// that place; `less` computes `lt`. `x` sorts before or after each element.
fn insert_sorted<T, F: Fn(&T, &T) -> bool>(v: &mut Vec<T>, x: T, less: &F, lt: Ghost<spec_fn(T, T) -> bool>) -> (p:
    usize)
    requires
        forall|a: &T, b: &T| #[trigger] less.requires((a, b)),
        forall|a: &T, b: &T, r: bool| #[trigger] less.ensures((a, b), r) ==> r == (lt@)(*a, *b),
        sorted_with(lt@, old(v)@),
        forall|k: int| 0 <= k < old(v)@.len() ==> (lt@)(x, #[trigger] old(v)@[k]) || (lt@)(old(v)@[k], x),
        old(v)@.len() < usize::MAX,
    ensures
        p <= old(v)@.len(),
        final(v)@ == old(v)@.insert(p as int, x),
        sorted_with(lt@, final(v)@),
{
    let ghost w = v@;
    let mut p: usize = 0;
    while p < v.len()
        invariant
            p <= v@.len(),
            w == v@,
            forall|a: &T, b: &T| #[trigger] less.requires((a, b)),
            forall|a: &T, b: &T, r: bool| #[trigger] less.ensures((a, b), r) ==> r == (lt@)(*a, *b),
            forall|k: int| 0 <= k < p ==> !(lt@)(x, #[trigger] w[k]),
        ensures
            p <= v@.len(),
            w == v@,
            forall|k: int| 0 <= k < p ==> !(lt@)(x, #[trigger] w[k]),
            p < v@.len() ==> (lt@)(x, w[p as int]),
        decreases v@.len() - p,
    {
        if less(&x, &v[p]) {
            break;
        }
        p = p + 1;
    }
    v.insert(p, x);
    proof {
        let w2 = v@;
        assert forall|k: int| 0 <= k < w2.len() - 1 implies (lt@)(#[trigger] w2[k], w2[k + 1]) by {
            if k + 1 < p {
                assert(w2[k] == w[k] && w2[k + 1] == w[k + 1]);
            } else if k + 1 == p {
                assert(w2[k] == w[k]);
            } else if k == p {
                assert(w2[k + 1] == w[k]);
            } else {
                assert(w2[k] == w[k - 1] && w2[k + 1] == w[k]);
            }
        }
    }
    p
}

/// The order `o` on rows, as an order on the rows' views.
pub open spec fn row_order(o: Order) -> spec_fn(StationPriceChange, StationPriceChange) -> bool {
    |a: StationPriceChange, b: StationPriceChange| before(o, row_view(a), row_view(b))
}

proof fn lemma_sorted_rows(o: Order, s: Seq<StationPriceChange>)
    ensures
        sorted_with(row_order(o), s) == sorted_by(o, rows_view(s)),
{
    let w = rows_view(s);
    if sorted_with(row_order(o), s) {
        assert forall|k: int| 0 <= k < w.len() - 1 implies before(o, #[trigger] w[k], w[k + 1]) by {
            assert((row_order(o))(s[k], s[k + 1]));
        }
    }
    if sorted_by(o, w) {
        assert forall|k: int| 0 <= k < s.len() - 1 implies (row_order(o))(#[trigger] s[k], s[k + 1]) by {
            assert(before(o, w[k], w[k + 1]));
        }
    }
}

fn selected_at(store: &Store, sel: Selection, i: usize) -> (r: bool)
    requires
        store.wf(),
        i < store@.changes.len(),
    ensures
        r == selected(store@, sel, i as int),
{
    let ghost m = store@;
    let c = store.price_changes[i];
    assert(m.changes[i as int].station_id == c.station_id);
    match sel {
        Selection::All => true,
        Selection::OfStation(id) => c.station_id == id,
        Selection::Latest => {
            let n = store.price_changes.len();
            let mut j: usize = 0;
            while j < n
                invariant
                    m == store@,
                    sel == Selection::Latest,
                    n == m.changes.len(),
                    j <= n,
                    i < n,
                    c.station_id == m.changes[i as int].station_id,
                    c.updated == m.changes[i as int].updated,
                    forall|k: int|
                        0 <= k < j && #[trigger] m.changes[k].station_id == c.station_id ==> m.changes[k].updated
                            <= c.updated,
                decreases n - j,
            {
                let d = store.price_changes[j];
                assert(m.changes[j as int].station_id == d.station_id && m.changes[j as int].updated == d.updated);
                if d.station_id == c.station_id && d.updated > c.updated {
                    assert(!is_latest(m, i as int));
                    return false;
                }
                j = j + 1;
            }
            true
        },
    }
}

/// `w` holds, once each, the rows of the selected observations among the
/// first `i`.
spec fn covers(m: StoreView, sel: Selection, i: int, w: Seq<RowView>) -> bool {
    &&& forall|k: int| #![trigger w[k]] 0 <= k < w.len() ==> from_selected(m, sel, i, w[k])
    &&& forall|j: int| #![trigger selected(m, sel, j)] 0 <= j < i && selected(m, sel, j) ==> w.contains(history_row(m, j))
}

proof fn lemma_covers_skip(m: StoreView, sel: Selection, i: int, w: Seq<RowView>)
    requires
        covers(m, sel, i, w),
        !selected(m, sel, i),
    ensures
        covers(m, sel, i + 1, w),
{
    assert forall|k: int| 0 <= k < w.len() implies from_selected(m, sel, i + 1, #[trigger] w[k]) by {
        let j = choose|j: int| 0 <= j < i && selected(m, sel, j) && history_row(m, j) == w[k];
        assert(0 <= j < i + 1 && selected(m, sel, j) && history_row(m, j) == w[k]);
    }
    assert forall|j: int| 0 <= j < i + 1 && #[trigger] selected(m, sel, j) implies w.contains(history_row(m, j)) by {
        assert(j < i);
    }
}

proof fn lemma_covers_insert(m: StoreView, sel: Selection, i: int, w: Seq<RowView>, p: int)
    requires
        covers(m, sel, i, w),
        selected(m, sel, i),
        0 <= i,
        0 <= p <= w.len(),
    ensures
        covers(m, sel, i + 1, w.insert(p, history_row(m, i))),
{
    let x = history_row(m, i);
    let w2 = w.insert(p, x);
    assert forall|k: int| 0 <= k < w2.len() implies from_selected(m, sel, i + 1, #[trigger] w2[k]) by {
        if k == p {
            assert(w2[p] == x);
            assert(0 <= i < i + 1 && selected(m, sel, i) && history_row(m, i) == w2[k]);
        } else {
            let k0 = if k < p { k } else { k - 1 };
            assert(w2[k] == w[k0]);
            let j = choose|j: int| 0 <= j < i && selected(m, sel, j) && history_row(m, j) == w[k0];
            assert(0 <= j < i + 1 && selected(m, sel, j) && history_row(m, j) == w2[k]);
        }
    }
    assert forall|j: int| 0 <= j < i + 1 && #[trigger] selected(m, sel, j) implies w2.contains(history_row(m, j)) by {
        if j == i {
            assert(w2[p] == history_row(m, j));
        } else {
            assert(w.contains(history_row(m, j)));
            let k0 = choose|k: int| 0 <= k < w.len() && w[k] == history_row(m, j);
            if k0 < p {
                assert(w2[k0] == history_row(m, j));
            } else {
                assert(w2[k0 + 1] == history_row(m, j));
            }
        }
    }
}

proof fn lemma_covers_distinct(m: StoreView, sel: Selection, i: int, w: Seq<RowView>)
    requires
        valid_store(m),
        0 <= i < m.changes.len(),
        covers(m, sel, i, w),
        selected(m, sel, i),
    ensures
        forall|k: int| 0 <= k < w.len() ==> !same_key(order_of(sel), #[trigger] w[k], history_row(m, i)),
{
    assert forall|k: int| 0 <= k < w.len() implies !same_key(order_of(sel), #[trigger] w[k], history_row(m, i)) by {
        assert(from_selected(m, sel, i, w[k]));
        let j = choose|j: int| 0 <= j < i && selected(m, sel, j) && history_row(m, j) == w[k];
        lemma_selected_distinct(m, sel, j, i);
    }
}

/// The projection of `store` that `sel` selects, in the order that goes with
/// it.
fn project(store: &Store, sel: Selection) -> (r: Vec<StationPriceChange>)
    requires
        store.wf(),
    ensures
        is_projection(store@, sel, order_of(sel), rows_view(r@)),
{
    let o = match sel {
        Selection::All => Order::History,
        Selection::Latest => Order::ByStation,
        Selection::OfStation(_) => Order::Newest,
    };
    let ghost m = store@;
    let mut out: Vec<StationPriceChange> = Vec::new();
    let n = store.price_changes.len();
    let mut i: usize = 0;
    while i < n
        invariant
            store.wf(),
            m == store@,
            n == m.changes.len(),
            i <= n,
            o == order_of(sel),
            out@.len() <= i,
            sorted_by(o, rows_view(out@)),
            covers(m, sel, i as int, rows_view(out@)),
        decreases n - i,
    {
        if selected_at(store, sel, i) {
            let c = store.price_changes[i];
            proof {
                store.lemma_wf_valid();
                assert(m.changes[i as int].station_id == c.station_id);
            }
            let s = &store.stations[(c.station_id - 1) as usize];
            let row = StationPriceChange {
                name: s.name.clone(),
                addr: s.addr.clone(),
                updated: c.updated,
                price: c.price,
            };
            let ghost w = rows_view(out@);
            assert(row_view(row) == history_row(m, i as int));
            proof {
                lemma_covers_distinct(m, sel, i as int, w);
            }
            proof {
                lemma_sorted_rows(o, out@);
                assert forall|k: int| 0 <= k < out@.len() implies (row_order(o))(row, #[trigger] out@[k]) || (
                row_order(o))(out@[k], row) by {
                    assert(rows_view(out@)[k] == row_view(out@[k]));
                    lemma_before_total(o, row_view(row), row_view(out@[k]));
                }
            }
            let less = |a: &StationPriceChange, b: &StationPriceChange| -> (r: bool)
                ensures
                    r == before(o, row_view(*a), row_view(*b)),
                { row_before(o, a, b) };
            let p = insert_sorted(&mut out, row, &less, Ghost(row_order(o)));
            proof {
                lemma_sorted_rows(o, out@);
            }
            proof {
                lemma_covers_insert(m, sel, i as int, w, p as int);
                assert(rows_view(out@) =~= w.insert(p as int, history_row(m, i as int)));
            }
        } else {
            proof {
                lemma_covers_skip(m, sel, i as int, rows_view(out@));
            }
        }
        i = i + 1;
    }
    out
}

impl StationPriceChange {
    /// Every observation with its station: newest first, then cheapest, then
    /// by name, then by address.
    pub fn load_all(store: &Store) -> (r: Vec<StationPriceChange>)
        requires
            store.wf(),
        ensures
            is_projection(store@, Selection::All, Order::History, rows_view(r@)),
    {
        project(store, Selection::All)
    }

    /// The current price of each station: its observations at its latest
    /// instant, by name, then by address.
    pub fn load_current(store: &Store) -> (r: Vec<StationPriceChange>)
        requires
            store.wf(),
        ensures
            is_projection(store@, Selection::Latest, Order::ByStation, rows_view(r@)),
    {
        project(store, Selection::Latest)
    }

    /// The observations of the station with id `id`, newest first.
    pub fn load_station(id: i32, store: &Store) -> (r: Vec<StationPriceChange>)
        requires
            store.wf(),
        ensures
            is_projection(store@, Selection::OfStation(id), Order::Newest, rows_view(r@)),
    {
        project(store, Selection::OfStation(id))
    }

    /// The display price of the row.
    pub fn display_price(&self) -> (r: Result<[u8; 3], crate::price::RangeError>)
        ensures
            r is Ok <==> crate::price::displayable(self.price as int),
            r matches Ok(p) ==> (p[0] as int, p[1] as int, p[2] as int) == crate::price::display_of(self.price as int),
    {
        crate::price::convert_price(self.price)
    }
}

/// A station of the model with its id.
pub struct StationEntry {
    pub id: int,
    pub key: StationView,
}

pub open spec fn station_entry(s: Station) -> StationEntry {
    StationEntry { id: s.id as int, key: StationView { name: s.name@, addr: s.addr@ } }
}

pub open spec fn station_entries(s: Seq<Station>) -> Seq<StationEntry> {
    s.map_values(|x: Station| station_entry(x))
}

/// The stored station at position `i`, with its id.
pub open spec fn stored_station(m: StoreView, i: int) -> StationEntry {
    StationEntry { id: i + 1, key: m.stations[i] }
}

/// `a` sorts strictly before `b`: by name, then by address.
pub open spec fn key_before(a: StationView, b: StationView) -> bool {
    text_less(a.name, b.name) || (a.name == b.name && text_less(a.addr, b.addr))
}

pub open spec fn stations_sorted(s: Seq<StationEntry>) -> bool {
    forall|k: int| 0 <= k < s.len() - 1 ==> key_before(#[trigger] s[k].key, s[k + 1].key)
}

/// `s` lists the stations of `m`, each once with its id, strictly sorted by
/// name, then by address.
pub open spec fn is_station_list(m: StoreView, s: Seq<StationEntry>) -> bool {
    &&& stations_sorted(s)
    &&& forall|k: int| 0 <= k < s.len() ==> #[trigger] stored_among(m, m.stations.len() as int, s[k])
    &&& forall|i: int| 0 <= i < m.stations.len() ==> s.contains(#[trigger] stored_station(m, i))
}

/// `e` is one of the first `i` stored stations.
pub open spec fn stored_among(m: StoreView, i: int, e: StationEntry) -> bool {
    exists|j: int| 0 <= j < i && stored_station(m, j) == e
}

fn station_before(a: &Station, b: &Station) -> (r: bool)
    ensures
        r == key_before(station_entry(*a).key, station_entry(*b).key),
{
    let n = compare_text(a.name.as_str(), b.name.as_str());
    n < 0 || (n == 0 && compare_text(a.addr.as_str(), b.addr.as_str()) < 0)
}

/// The order of stations by name, then by address.
pub open spec fn station_order() -> spec_fn(Station, Station) -> bool {
    |a: Station, b: Station| key_before(station_entry(a).key, station_entry(b).key)
}

proof fn lemma_sorted_stations(s: Seq<Station>)
    ensures
        sorted_with(station_order(), s) == stations_sorted(station_entries(s)),
{
    let w = station_entries(s);
    if sorted_with(station_order(), s) {
        assert forall|k: int| 0 <= k < w.len() - 1 implies key_before(#[trigger] w[k].key, w[k + 1].key) by {
            assert((station_order())(s[k], s[k + 1]));
        }
    }
    if stations_sorted(w) {
        assert forall|k: int| 0 <= k < s.len() - 1 implies (station_order())(#[trigger] s[k], s[k + 1]) by {
            assert(key_before(w[k].key, w[k + 1].key));
        }
    }
}

impl Station {
    /// Every station with its id, by name, then by address.
    pub fn load_all(store: &Store) -> (r: Vec<Station>)
        requires
            store.wf(),
        ensures
            is_station_list(store@, station_entries(r@)),
    {
        let ghost m = store@;
        let mut out: Vec<Station> = Vec::new();
        let n = store.stations.len();
        let mut i: usize = 0;
        while i < n
            invariant
                store.wf(),
                m == store@,
                n == m.stations.len(),
                i <= n,
                out@.len() <= i,
                stations_sorted(station_entries(out@)),
                forall|k: int| 0 <= k < out@.len() ==> #[trigger] stored_among(m, i as int, station_entries(out@)[k]),
                forall|j: int| 0 <= j < i ==> station_entries(out@).contains(#[trigger] stored_station(m, j)),
            decreases n - i,
        {
            let s = &store.stations[i];
            let x = Station { id: s.id, name: s.name.clone(), addr: s.addr.clone() };
            let ghost w = station_entries(out@);
            assert(station_entry(x) == stored_station(m, i as int));
            assert forall|k: int| 0 <= k < out@.len() implies #[trigger] station_entries(out@)[k].key != station_entry(x).key by {
                assert(stored_among(m, i as int, w[k]));
                let j = choose|j: int| 0 <= j < i && stored_station(m, j) == w[k];
                assert(m.stations[j] != m.stations[i as int]);
            }
            proof {
                lemma_sorted_stations(out@);
                assert forall|k: int| 0 <= k < out@.len() implies (station_order())(x, #[trigger] out@[k]) || (
                station_order())(out@[k], x) by {
                    let (xk, yk) = (station_entry(x).key, station_entry(out@[k]).key);
                    assert(station_entries(out@)[k].key == yk);
                    lemma_text_less_total(xk.name, yk.name);
                    lemma_text_less_total(xk.addr, yk.addr);
                }
            }
            let less = |a: &Station, b: &Station| -> (r: bool)
                ensures
                    r == key_before(station_entry(*a).key, station_entry(*b).key),
                { station_before(a, b) };
            let p = insert_sorted(&mut out, x, &less, Ghost(station_order()));
            proof {
                lemma_sorted_stations(out@);
            }
            proof {
                let w2 = station_entries(out@);
                let e = stored_station(m, i as int);
                assert(w2 =~= w.insert(p as int, e));
                assert forall|k: int| 0 <= k < w2.len() implies #[trigger] stored_among(m, i + 1, w2[k]) by {
                    if k == p {
                        assert(w2[k] == e);
                        assert(stored_station(m, i as int) == w2[k]);
                    } else {
                        let k0 = if k < p { k } else { k - 1 };
                        assert(w2[k] == w[k0]);
                        assert(stored_among(m, i as int, w[k0]));
                        let j = choose|j: int| 0 <= j < i && stored_station(m, j) == w[k0];
                        assert(0 <= j < i + 1 && stored_station(m, j) == w2[k]);
                    }
                }
                assert forall|j: int| 0 <= j < i + 1 implies w2.contains(#[trigger] stored_station(m, j)) by {
                    if j == i {
                        assert(w2[p as int] == stored_station(m, j));
                    } else {
                        assert(w.contains(stored_station(m, j)));
                        let k0 = choose|k: int| 0 <= k < w.len() && w[k] == stored_station(m, j);
                        if k0 < p {
                            assert(w2[k0] == stored_station(m, j));
                        } else {
                            assert(w2[k0 + 1] == stored_station(m, j));
                        }
                    }
                }
            }
            i = i + 1;
        }
        out
    }
}

} // verus!
