//! The DNS records through which the peers of a chat room find each other.
//! The room's record set holds one CNAME record per peer whose target begins
//! with the peer's endpoint id in z-base-32.  A peer reads the set to find
//! peers to start from, and republishes it with its own record added.
use vstd::prelude::*;
use vstd::utf8::{decode_utf8, valid_utf8};

verus! {

/// The most peers that a peer starts from.
pub const MAX_BOOTSTRAP_RECORDS: usize = 20;

/// A record of the room's record set, as far as the room reads it.
#[derive(Debug, Clone, PartialEq, Eq)]
pub enum RoomRecord {
    Cname {
        /// The bytes of the labels of the target name, in order.
        labels: Vec<Vec<u8>>,
        /// The time to live, in seconds.
        ttl: u32,
    },
    /// A record of another type.
    Other,
}

pub enum RoomRecordView {
    Cname { labels: Seq<Seq<u8>>, ttl: u32 },
    Other,
}

impl View for RoomRecord {
    type V = RoomRecordView;

    open spec fn view(&self) -> RoomRecordView {
        match self {
            RoomRecord::Cname { labels, ttl } => RoomRecordView::Cname {
                labels: labels_view(labels@),
                ttl: *ttl,
            },
            RoomRecord::Other => RoomRecordView::Other,
        }
    }
}

/// The bytes of each label of a name.
pub open spec fn labels_view(v: Seq<Vec<u8>>) -> Seq<Seq<u8>> {
    v.map_values(|l: Vec<u8>| l@)
}

pub open spec fn records_view(v: Seq<RoomRecord>) -> Seq<RoomRecordView> {
    v.map_values(|r: RoomRecord| r@)
}

/// Calls `std::str::from_utf8`: the text that the bytes encode in UTF-8, if
/// they are valid UTF-8.
#[verifier::external_body]
fn utf8_text(bytes: &[u8]) -> (res: Option<String>)
    ensures
        res is Some <==> valid_utf8(bytes@),
        res matches Some(s) ==> s@ == decode_utf8(bytes@),
{
    std::str::from_utf8(bytes).ok().map(String::from)
}

/// The endpoint id text that a record offers as a peer: the first label of a
/// CNAME target, where it is valid UTF-8 and not `own_id`.
pub open spec fn offered_peer(r: RoomRecordView, own_id: Seq<u8>) -> Option<Seq<char>> {
    match r {
        RoomRecordView::Cname { labels, .. } => if labels.len() > 0 && labels[0] != own_id
            && valid_utf8(labels[0]) {
            Some(decode_utf8(labels[0]))
        } else {
            None
        },
        _ => None,
    }
}

/// The peers that the records offer, in order.
pub open spec fn offered_peers(rs: Seq<RoomRecordView>, own_id: Seq<u8>) -> Seq<Seq<char>>
    decreases rs.len(),
{
    if rs.len() == 0 {
        Seq::empty()
    } else {
        let before = offered_peers(rs.drop_last(), own_id);
        match offered_peer(rs.last(), own_id) {
            Some(p) => before.push(p),
            None => before,
        }
    }
}

/// The peers to start from: the first ones that the records offer, at most
/// `MAX_BOOTSTRAP_RECORDS` of them.
pub open spec fn bootstrap_peers(rs: Seq<RoomRecordView>, own_id: Seq<u8>) -> Seq<Seq<char>> {
    let all = offered_peers(rs, own_id);
    if all.len() <= MAX_BOOTSTRAP_RECORDS {
        all
    } else {
        all.take(MAX_BOOTSTRAP_RECORDS as int)
    }
}

/// The endpoint id texts of the peers to start from, which the caller parses
/// as endpoint ids, dropping those that do not parse.
pub fn bootstrap_candidates(records: &Vec<RoomRecord>, own_id: &[u8]) -> (res: Vec<String>)
    ensures
        res@.map_values(|s: String| s@) == bootstrap_peers(records_view(records@), own_id@),
        res@.len() <= MAX_BOOTSTRAP_RECORDS,
{
    let ghost rs = records_view(records@);
    let mut out: Vec<String> = Vec::new();
    let mut i: usize = 0;
    assert(rs.take(0) =~= Seq::<RoomRecordView>::empty());
    while i < records.len()
        invariant
            i <= records@.len(),
            rs == records_view(records@),
            out@.len() <= MAX_BOOTSTRAP_RECORDS,
            out@.map_values(|s: String| s@) == bootstrap_peers(rs.take(i as int), own_id@),
        decreases records@.len() - i,
    {
        let ghost prev = rs.take(i as int);
        assert(rs.take(i + 1).drop_last() =~= prev);
        assert(rs.take(i + 1).last() == records@[i as int]@);
        let ghost before = offered_peers(prev, own_id@);
        match &records[i] {
            RoomRecord::Cname { labels, .. } if labels.len() > 0 => {
                let label = &labels[0];
                if !slice_eq(label.as_slice(), own_id) {
                    if let Some(text) = utf8_text(label.as_slice()) {
                        if out.len() < MAX_BOOTSTRAP_RECORDS {
                            out.push(text);
                        }
                        proof {
                            let now = before.push(decode_utf8(label@));
                            assert(offered_peers(rs.take(i + 1), own_id@) == now);
                            if before.len() < MAX_BOOTSTRAP_RECORDS {
                                assert(now.take(now.len() as int) =~= now);
                            } else {
                                assert(now.take(MAX_BOOTSTRAP_RECORDS as int) =~= before.take(
                                    MAX_BOOTSTRAP_RECORDS as int,
                                ));
                            }
                        }
                    }
                }
            },
            _ => {},
        }
        i = i + 1;
        assert(out@.map_values(|s: String| s@) =~= bootstrap_peers(rs.take(i as int), own_id@));
    }
    assert(rs.take(records@.len() as int) =~= rs);
    out
}

/// Whether two names have the same labels.
fn labels_eq(a: &Vec<Vec<u8>>, b: &Vec<Vec<u8>>) -> (res: bool)
    ensures
        res == (labels_view(a@) == labels_view(b@)),
{
    if a.len() != b.len() {
        assert(labels_view(a@).len() != labels_view(b@).len());
        return false;
    }
    let mut i: usize = 0;
    while i < a.len()
        invariant
            a@.len() == b@.len(),
            i <= a@.len(),
            forall|j: int| 0 <= j < i ==> a@[j]@ == b@[j]@,
        decreases a@.len() - i,
    {
        if !slice_eq(a[i].as_slice(), b[i].as_slice()) {
            assert(labels_view(a@)[i as int] != labels_view(b@)[i as int]);
            return false;
        }
        i = i + 1;
    }
    assert(labels_view(a@) =~= labels_view(b@));
    true
}

/// Whether two byte strings are equal.
fn slice_eq(a: &[u8], b: &[u8]) -> (res: bool)
    ensures
        res == (a@ == b@),
{
    if a.len() != b.len() {
        return false;
    }
    let mut i: usize = 0;
    while i < a.len()
        invariant
            a@.len() == b@.len(),
            i <= a@.len(),
            forall|j: int| 0 <= j < i ==> a@[j] == b@[j],
        decreases a@.len() - i,
    {
        if a[i] != b[i] {
            return false;
        }
        i = i + 1;
    }
    assert(a@ =~= b@);
    true
}

/// The records that a peer carries over when it republishes the record set:
/// each CNAME record whose target is not the peer's own name (the two differ
/// in some label), by its
/// position, with its time to live lessened by the time since the set was
/// published; a record whose time to live has run out is dropped.
pub open spec fn carried_records(rs: Seq<RoomRecordView>, own_name: Seq<Seq<u8>>, elapsed: u32) -> Seq<
    (int, u32),
>
    decreases rs.len(),
{
    if rs.len() == 0 {
        Seq::empty()
    } else {
        let before = carried_records(rs.drop_last(), own_name, elapsed);
        match rs.last() {
            RoomRecordView::Cname { labels, ttl } => if labels != own_name && elapsed <= ttl {
                before.push(((rs.len() - 1) as int, (ttl - elapsed) as u32))
            } else {
                before
            },
            RoomRecordView::Other => before,
        }
    }
}

/// The records to carry over into the republished record set, by their
/// position in `records` and with their new time to live.
pub fn records_to_republish(records: &Vec<RoomRecord>, own_name: &Vec<Vec<u8>>, elapsed: u32) -> (res: Vec<
    (usize, u32),
>)
    ensures
        res@.map_values(|p: (usize, u32)| (p.0 as int, p.1)) == carried_records(
            records_view(records@),
            labels_view(own_name@),
            elapsed,
        ),
{
    let ghost rs = records_view(records@);
    let mut out: Vec<(usize, u32)> = Vec::new();
    let mut i: usize = 0;
    assert(rs.take(0) =~= Seq::<RoomRecordView>::empty());
    while i < records.len()
        invariant
            i <= records@.len(),
            rs == records_view(records@),
            out@.map_values(|p: (usize, u32)| (p.0 as int, p.1)) == carried_records(
                rs.take(i as int),
                labels_view(own_name@),
                elapsed,
            ),
        decreases records@.len() - i,
    {
        let ghost prev = rs.take(i as int);
        assert(rs.take(i + 1).drop_last() =~= prev);
        assert(rs.take(i + 1).last() == records@[i as int]@);
        match &records[i] {
            RoomRecord::Cname { labels, ttl } => {
                if !labels_eq(labels, own_name) && elapsed <= *ttl {
                    out.push((i, *ttl - elapsed));
                }
            },
            RoomRecord::Other => {},
        }
        i = i + 1;
        assert(out@.map_values(|p: (usize, u32)| (p.0 as int, p.1)) =~= carried_records(
            rs.take(i as int),
            labels_view(own_name@),
            elapsed,
        ));
    }
    assert(rs.take(records@.len() as int) =~= rs);
    out
}

/// The time between two publications of a peer's record with time to live
/// `ttl`, in nanoseconds: three quarters of the time to live, in whole
/// seconds; a third of that after a publication that failed.
pub open spec fn publish_interval(ttl: u32, failed: bool) -> int {
    let secs = (3 * ttl) / 4;
    if failed {
        (secs * 1_000_000_000) / 3
    } else {
        secs * 1_000_000_000
    }
}

/// The time to wait before the next publication, in nanoseconds.
pub fn publish_wait_nanos(ttl: u32, failed: bool) -> (res: u64)
    ensures
        res == publish_interval(ttl, failed),
{
    let secs: u64 = (3 * (ttl as u64)) / 4;
    assert(secs * 1_000_000_000 <= 4_000_000_000u64 * 1_000_000_000u64) by (nonlinear_arith)
        requires
            secs <= 4_000_000_000u64,
    ;
    let nanos: u64 = secs * 1_000_000_000;
    if failed {
        nanos / 3
    } else {
        nanos
    }
}

/// Republishing never carries over a record that points at the peer's own
/// name, and every carried record is a CNAME record whose time to live is
/// lessened by exactly the elapsed time.
pub proof fn lemma_carried_records(rs: Seq<RoomRecordView>, own_name: Seq<Seq<u8>>, elapsed: u32)
    ensures
        forall|k: int|
            0 <= k < carried_records(rs, own_name, elapsed).len() ==> {
                let (i, ttl) = #[trigger] carried_records(rs, own_name, elapsed)[k];
                &&& 0 <= i < rs.len()
                &&& rs[i] matches RoomRecordView::Cname { labels, ttl: old_ttl }
                &&& labels != own_name
                &&& elapsed <= old_ttl
                &&& ttl == old_ttl - elapsed
            },
    decreases rs.len(),
{
    if rs.len() > 0 {
        let prev = rs.drop_last();
        lemma_carried_records(prev, own_name, elapsed);
        let before = carried_records(prev, own_name, elapsed);
        assert forall|k: int| 0 <= k < carried_records(rs, own_name, elapsed).len() implies {
            let (i, ttl) = #[trigger] carried_records(rs, own_name, elapsed)[k];
            &&& 0 <= i < rs.len()
            &&& rs[i] matches RoomRecordView::Cname { labels, ttl: old_ttl }
            &&& labels != own_name
            &&& elapsed <= old_ttl
            &&& ttl == old_ttl - elapsed
        } by {
            if k < before.len() {
                assert(carried_records(rs, own_name, elapsed)[k] == before[k]);
                let (i, _) = before[k];
                assert(rs[i] == prev[i]);
            }
        }
    }
}

/// The wait after a failed publication is a third of the usual wait,
/// rounded down.
pub proof fn lemma_failed_publication_waits_a_third(ttl: u32)
    ensures
        publish_interval(ttl, true) == publish_interval(ttl, false) / 3,
{
}


/// The endpoint id text that the first label of a CNAME target offers, where
/// the label is valid UTF-8 and not the peer's own id; whatever the record's
/// time to live.
pub open spec fn label_offer(r: RoomRecordView, own_id: Seq<u8>) -> Option<Seq<char>> {
    match r {
        RoomRecordView::Cname { labels, ttl: _ } => if labels.len() > 0 && labels[0] != own_id
            && valid_utf8(labels[0]) {
            Some(decode_utf8(labels[0]))
        } else {
            None
        },
        RoomRecordView::Other => None,
    }
}

/// The peers to start from are the first twenty offers of the records, in
/// record order: every CNAME record whose first label is valid UTF-8 and not
/// the peer's own id offers its label, whatever its time to live, and no
/// other record offers anything.
pub proof fn lemma_bootstrap_peers_are_first_twenty_offers(rs: Seq<RoomRecordView>, own_id: Seq<u8>)
    ensures
        ({
            let offers = rs.filter_map(|r: RoomRecordView| label_offer(r, own_id));
            bootstrap_peers(rs, own_id) == if offers.len() <= 20 {
                offers
            } else {
                offers.take(20)
            }
        }),
{
    lemma_offered_peers_are_offers(rs, own_id);
}

proof fn lemma_offered_peers_are_offers(rs: Seq<RoomRecordView>, own_id: Seq<u8>)
    ensures
        offered_peers(rs, own_id) == rs.filter_map(|r: RoomRecordView| label_offer(r, own_id)),
    decreases rs.len(),
{
    if rs.len() > 0 {
        lemma_offered_peers_are_offers(rs.drop_last(), own_id);
        let f = |r: RoomRecordView| label_offer(r, own_id);
        assert(rs.filter_map(f) =~= offered_peers(rs, own_id));
    }
}

/// Republishing carries over every CNAME record whose target is not the
/// peer's own name and whose time to live has not run out: each appears, by
/// its position and with its time to live lessened by the elapsed time, and
/// the carried records keep the order of the record set.
pub proof fn lemma_carries_every_fresh_record(rs: Seq<RoomRecordView>, own_name: Seq<Seq<u8>>, elapsed: u32)
    ensures
        forall|i: int|
            #![trigger rs[i]]
            0 <= i < rs.len() ==> match rs[i] {
                RoomRecordView::Cname { labels, ttl } => elapsed <= ttl && labels != own_name
                    ==> exists|k: int|
                    0 <= k < carried_records(rs, own_name, elapsed).len() && #[trigger] carried_records(
                        rs,
                        own_name,
                        elapsed,
                    )[k] == (i, (ttl - elapsed) as u32),
                RoomRecordView::Other => true,
            },
        forall|k1: int, k2: int|
            0 <= k1 < k2 < carried_records(rs, own_name, elapsed).len() ==> #[trigger] carried_records(
                rs,
                own_name,
                elapsed,
            )[k1].0 < #[trigger] carried_records(rs, own_name, elapsed)[k2].0,
        forall|k: int|
            0 <= k < carried_records(rs, own_name, elapsed).len() ==> 0 <= #[trigger] carried_records(
                rs,
                own_name,
                elapsed,
            )[k].0 < rs.len(),
    decreases rs.len(),
{
    let c = carried_records(rs, own_name, elapsed);
    if rs.len() > 0 {
        let prev = rs.drop_last();
        let n = rs.len() - 1;
        lemma_carries_every_fresh_record(prev, own_name, elapsed);
        let before = carried_records(prev, own_name, elapsed);
        assert forall|k: int| 0 <= k < before.len() implies c[k] == before[k] by {}
        assert forall|k: int| 0 <= k < c.len() implies 0 <= #[trigger] c[k].0 < rs.len() by {
            if k < before.len() {
                assert(c[k] == before[k]);
            }
        }
        assert forall|k1: int, k2: int| 0 <= k1 < k2 < c.len() implies #[trigger] c[k1].0
            < #[trigger] c[k2].0 by {
            assert(c[k1] == before[k1]);
            if k2 < before.len() {
                assert(c[k2] == before[k2]);
            } else {
                assert(before[k1].0 < prev.len());
            }
        }
        assert forall|i: int| #![trigger rs[i]] 0 <= i < rs.len() implies match rs[i] {
            RoomRecordView::Cname { labels, ttl } => elapsed <= ttl && labels != own_name
                ==> exists|k: int| 0 <= k < c.len() && #[trigger] c[k] == (i, (ttl - elapsed) as u32),
            RoomRecordView::Other => true,
        } by {
            if i < n {
                assert(rs[i] == prev[i]);
                match rs[i] {
                    RoomRecordView::Cname { labels, ttl } => {
                        if elapsed <= ttl && labels != own_name {
                            let k = choose|k: int|
                                0 <= k < before.len() && #[trigger] before[k] == (i, (ttl - elapsed) as u32);
                            assert(c[k] == before[k]);
                        }
                    },
                    RoomRecordView::Other => {},
                }
            } else {
                match rs[i] {
                    RoomRecordView::Cname { labels, ttl } => {
                        if elapsed <= ttl && labels != own_name {
                            assert(c[before.len() as int] == (i, (ttl - elapsed) as u32));
                        }
                    },
                    RoomRecordView::Other => {},
                }
            }
        }
    }
}

} // verus!
