use vstd::prelude::*;
use crate::models::IpVersion;
use crate::net::IpNet;

verus! {

/// One persisted blocklist record: an IP network (the natural key), the
/// version tag derived from it, optional free-text metadata, and the
/// creation timestamp.
#[derive(Debug)]
pub struct Blocklist {
    pub id: i64,
    pub ip: IpNet,
    pub version: IpVersion,
    pub country_code: Option<String>,
    pub isp: Option<String>,
    pub user_agent: Option<String>,
    pub description: Option<String>,
    pub added_at: i64,
}

impl Blocklist {
    /// A well-formed record: its network is well-formed and its version tag
    /// agrees with the network's address family.
    pub open spec fn wf(self) -> bool {
        &&& self.ip.wf()
        &&& self.version == self.ip.version_spec()
    }
}

/// Whether some record in `es` already holds the network `ip`.
pub open spec fn contains_ip(es: Seq<Blocklist>, ip: IpNet) -> bool {
    exists|i: int| 0 <= i < es.len() && (#[trigger] es[i]).ip == ip
}

/// The table invariant over its raw pieces: every record is well-formed,
/// identifiers are strictly increasing in creation order and below the next
/// free one, and no network is stored twice.
pub open spec fn entries_wf(es: Seq<Blocklist>, next_id: int) -> bool {
    &&& next_id >= 1
    &&& forall|i: int| 0 <= i < es.len() ==> (#[trigger] es[i]).wf()
    &&& forall|i: int| 0 <= i < es.len() ==> (#[trigger] es[i]).id < next_id
    &&& forall|i: int, j: int|
        #![trigger es[i], es[j]]
        0 <= i < j < es.len() ==> es[i].id < es[j].id
    &&& forall|i: int, j: int|
        #![trigger es[i].ip, es[j].ip]
        0 <= i < j < es.len() ==> es[i].ip != es[j].ip
}

/// The invariant is preserved by appending a fresh well-formed record that
/// takes the next identifier and a network not yet stored.
pub proof fn lemma_push_wf(es: Seq<Blocklist>, next_id: int, e: Blocklist)
    requires
        entries_wf(es, next_id),
        e.wf(),
        e.id == next_id,
        !contains_ip(es, e.ip),
    ensures
        entries_wf(es.push(e), next_id + 1),
{
    let es1 = es.push(e);
    assert forall|i: int| 0 <= i < es1.len() implies (#[trigger] es1[i]).wf() by {
        if i < es.len() {
            assert(es[i].wf());
        }
    }
    assert forall|i: int| 0 <= i < es1.len() implies (#[trigger] es1[i]).id < next_id + 1 by {
        if i < es.len() {
            assert(es[i].id < next_id);
        }
    }
    assert forall|i: int, j: int|
        #![trigger es1[i], es1[j]]
        0 <= i < j < es1.len() implies es1[i].id < es1[j].id by {
        if j < es.len() {
            assert(es[i].id < es[j].id);
        } else {
            assert(es1[j] == e);
            assert(es[i].id < next_id);
        }
    }
    assert forall|i: int, j: int|
        #![trigger es1[i].ip, es1[j].ip]
        0 <= i < j < es1.len() implies es1[i].ip != es1[j].ip by {
        if j < es.len() {
            assert(es[i].ip != es[j].ip);
        } else {
            assert(es1[j] == e);
            assert(es[i].ip != e.ip);
        }
    }
}

/// The networks of the records of `es` that pass the version filter, most
/// recently appended first.
pub open spec fn filtered_ips_desc(es: Seq<Blocklist>, filter: Option<IpVersion>) -> Seq<IpNet>
    decreases es.len(),
{
    if es.len() == 0 {
        Seq::empty()
    } else {
        let rest = filtered_ips_desc(es.drop_last(), filter);
        if match filter {
            Some(v) => es.last().version == v,
            None => true,
        } {
            seq![es.last().ip] + rest
        } else {
            rest
        }
    }
}

/// The records of `es` that pass the version filter, most recently appended
/// first.
pub open spec fn filtered_desc(es: Seq<Blocklist>, filter: Option<IpVersion>) -> Seq<Blocklist>
    decreases es.len(),
{
    if es.len() == 0 {
        Seq::empty()
    } else {
        let rest = filtered_desc(es.drop_last(), filter);
        if match filter {
            Some(v) => es.last().version == v,
            None => true,
        } {
            seq![es.last()] + rest
        } else {
            rest
        }
    }
}

/// The table's state after a bulk import of `ips`, one record per network
/// not already present, each next one taking the next identifier; networks
/// already present are skipped silently. Yields the records and the next
/// free identifier.
pub open spec fn import_fold(es: Seq<Blocklist>, next_id: int, ips: Seq<IpNet>, now: i64) -> (
    Seq<Blocklist>,
    int,
)
    decreases ips.len(),
{
    if ips.len() == 0 {
        (es, next_id)
    } else if contains_ip(es, ips[0]) {
        import_fold(es, next_id, ips.drop_first(), now)
    } else {
        import_fold(
            es.push(bulk_entry_spec(next_id, ips[0], now)),
            next_id + 1,
            ips.drop_first(),
            now,
        )
    }
}

/// The record that a bulk import creates for one network: no metadata, the
/// version derived from the network.
pub open spec fn bulk_entry_spec(id: int, ip: IpNet, now: i64) -> Blocklist {
    Blocklist {
        id: id as i64,
        ip,
        version: ip.version_spec(),
        country_code: None,
        isp: None,
        user_agent: None,
        description: None,
        added_at: now,
    }
}

/// The model of the blocklist table: records in order of creation, plus the
/// next identifier the backing store will assign.
pub struct BlocklistTable {
    pub entries: Vec<Blocklist>,
    pub next_id: i64,
}

impl BlocklistTable {
    /// The table's invariant; see `entries_wf`.
    pub open spec fn wf(self) -> bool {
        entries_wf(self.entries@, self.next_id as int)
    }

    /// Whether the table already stores `ip`.
    pub open spec fn has_ip_spec(self, ip: IpNet) -> bool {
        contains_ip(self.entries@, ip)
    }

    /// The record that a single insert of `ip` creates: the next identifier,
    /// the version derived from the network, no description.
    pub open spec fn new_entry_spec(
        self,
        ip: IpNet,
        country_code: Option<String>,
        isp: Option<String>,
        user_agent: Option<String>,
        now: i64,
    ) -> Blocklist {
        Blocklist {
            id: self.next_id,
            ip,
            version: ip.version_spec(),
            country_code,
            isp,
            user_agent,
            description: None,
            added_at: now,
        }
    }

    /// An empty table; the first record will take identifier 1.
    pub fn new() -> (t: BlocklistTable)
        ensures
            t.wf(),
            t.entries@.len() == 0,
            t.next_id == 1,
    {
        BlocklistTable { entries: Vec::new(), next_id: 1 }
    }

    /// Whether the table already stores `ip`.
    pub fn has_ip(&self, ip: IpNet) -> (r: bool)
        ensures
            r == self.has_ip_spec(ip),
    {
        let mut i: usize = 0;
        while i < self.entries.len()
            invariant
                i <= self.entries@.len(),
                forall|j: int| 0 <= j < i ==> (#[trigger] self.entries@[j]).ip != ip,
            decreases self.entries@.len() - i,
        {
            if self.entries[i].ip == ip {
                return true;
            }
            i += 1;
        }
        false
    }
}

/// The networks of a filtered listing are exactly its records' networks.
proof fn lemma_filtered_map(es: Seq<Blocklist>, filter: Option<IpVersion>)
    ensures
        filtered_ips_desc(es, filter) =~= filtered_desc(es, filter).map_values(
            |e: Blocklist| e.ip,
        ),
    decreases es.len(),
{
    if es.len() == 0 {
    } else {
        lemma_filtered_map(es.drop_last(), filter);
    }
}

/// Along a filtered listing the identifiers strictly decrease, and none
/// exceeds the most recently stored identifier.
proof fn lemma_filtered_sorted(es: Seq<Blocklist>, filter: Option<IpVersion>)
    requires
        forall|i: int, j: int| #![trigger es[i], es[j]] 0 <= i < j < es.len() ==> es[i].id
            < es[j].id,
    ensures
        filtered_desc(es, filter).len() <= es.len(),
        es.len() > 0 ==> forall|k: int|
            0 <= k < filtered_desc(es, filter).len() ==> (#[trigger] filtered_desc(
                es,
                filter,
            )[k]).id <= es.last().id,
        forall|i: int, j: int|
            #![trigger filtered_desc(es, filter)[i], filtered_desc(es, filter)[j]]
            0 <= i < j < filtered_desc(es, filter).len() ==> filtered_desc(es, filter)[i].id
                > filtered_desc(es, filter)[j].id,
    decreases es.len(),
{
    if es.len() == 0 {
    } else {
        let dl = es.drop_last();
        lemma_filtered_sorted(dl, filter);
        let rest = filtered_desc(dl, filter);
        let fs = filtered_desc(es, filter);
        assert(dl.len() > 0 ==> dl.last() == es[es.len() - 2]);
        assert(dl.len() > 0 ==> dl.last().id < es.last().id);
        if match filter {
            Some(v) => es.last().version == v,
            None => true,
        } {
            assert(fs =~= seq![es.last()] + rest);
            assert forall|i: int, j: int|
                #![trigger fs[i], fs[j]]
                0 <= i < j < fs.len() implies fs[i].id > fs[j].id by {
                if i == 0 {
                    assert(fs[j] == rest[j - 1]);
                    assert(rest[j - 1].id <= dl.last().id);
                } else {
                    assert(fs[i] == rest[i - 1] && fs[j] == rest[j - 1]);
                }
            }
        } else {
            assert(fs =~= rest);
        }
    }
}

/// The unfiltered listing walks the stored records in reverse creation
/// order: position `i` holds the record stored at position `len - 1 - i`.
proof fn lemma_filtered_none(es: Seq<Blocklist>)
    ensures
        filtered_desc(es, None).len() == es.len(),
        forall|i: int|
            0 <= i < es.len() ==> #[trigger] filtered_desc(es, None)[i] == es[es.len() - 1 - i],
    decreases es.len(),
{
    if es.len() == 0 {
    } else {
        let dl = es.drop_last();
        lemma_filtered_none(dl);
        let fs = filtered_desc(es, None);
        assert(fs =~= seq![es.last()] + filtered_desc(dl, None));
        assert forall|i: int| 0 <= i < es.len() implies #[trigger] fs[i] == es[es.len() - 1
            - i] by {
            if i > 0 {
                assert(fs[i] == filtered_desc(dl, None)[i - 1]);
                assert(filtered_desc(dl, None)[i - 1] == dl[dl.len() - 1 - (i - 1)]);
            }
        }
    }
}

/// Law: every stored record's version tag equals the address family implied
/// by its stored network; the tag is never independently settable.
pub proof fn lemma_version_consistent(t: BlocklistTable, i: int)
    requires
        t.wf(),
        0 <= i < t.entries@.len(),
    ensures
        t.entries@[i].version == t.entries@[i].ip.version_spec(),
{
    assert(t.entries@[i].wf());
}

/// Law: a listing is ordered by descending identifier — most recently
/// created first — whether filtered or not, the unfiltered listing walks all
/// records in reverse creation order, and the listed networks are exactly
/// the listed records' networks.
pub proof fn lemma_listing_order(t: BlocklistTable, filter: Option<IpVersion>)
    requires
        t.wf(),
    ensures
        forall|i: int, j: int|
            #![trigger filtered_desc(t.entries@, filter)[i], filtered_desc(t.entries@, filter)[j]]
            0 <= i < j < filtered_desc(t.entries@, filter).len() ==> filtered_desc(
                t.entries@,
                filter,
            )[i].id > filtered_desc(t.entries@, filter)[j].id,
        filtered_desc(t.entries@, None).len() == t.entries@.len(),
        forall|i: int|
            0 <= i < t.entries@.len() ==> #[trigger] filtered_desc(t.entries@, None)[i]
                == t.entries@[t.entries@.len() - 1 - i],
        filtered_ips_desc(t.entries@, filter) =~= filtered_desc(t.entries@, filter).map_values(
            |e: Blocklist| e.ip,
        ),
{
    lemma_filtered_sorted(t.entries@, filter);
    lemma_filtered_none(t.entries@);
    lemma_filtered_map(t.entries@, filter);
}

/// Law: inserting one network into an empty table and then listing with the
/// matching version filter yields exactly that network, and listing with
/// the other version's filter yields nothing.
pub proof fn lemma_insert_then_filter(
    t: BlocklistTable,
    ip: IpNet,
    country_code: Option<String>,
    isp: Option<String>,
    user_agent: Option<String>,
    now: i64,
)
    requires
        t.entries@.len() == 0,
        ip.wf(),
    ensures
        filtered_ips_desc(
            t.entries@.push(t.new_entry_spec(ip, country_code, isp, user_agent, now)),
            Some(ip.version_spec()),
        ) =~= seq![ip],
        filtered_ips_desc(
            t.entries@.push(t.new_entry_spec(ip, country_code, isp, user_agent, now)),
            Some(ip.version_spec().other()),
        ) =~= Seq::<IpNet>::empty(),
{
    let e = t.new_entry_spec(ip, country_code, isp, user_agent, now);
    let es = t.entries@.push(e);
    assert(es.last() == e);
    assert(es.drop_last() =~= Seq::<Blocklist>::empty());
    assert(filtered_ips_desc(es.drop_last(), Some(ip.version_spec())) =~= Seq::<IpNet>::empty());
    assert(filtered_ips_desc(es, Some(ip.version_spec())) =~= seq![ip]);
    assert(e.version != ip.version_spec().other());
    assert(filtered_ips_desc(es.drop_last(), Some(ip.version_spec().other())) =~= Seq::<
        IpNet,
    >::empty());
    assert(filtered_ips_desc(es, Some(ip.version_spec().other())) =~= Seq::<IpNet>::empty());
}

/// Law: a single add of a network not yet stored appends exactly one record
/// holding it, after which the network is stored — so a second single add
/// of the same network meets the unique-constraint rejection — and still no
/// network is stored twice.
pub proof fn lemma_duplicate_single_add(
    t: BlocklistTable,
    ip: IpNet,
    country_code: Option<String>,
    isp: Option<String>,
    user_agent: Option<String>,
    now: i64,
)
    requires
        t.wf(),
        t.next_id < i64::MAX,
        ip.wf(),
        !t.has_ip_spec(ip),
    ensures
        contains_ip(t.entries@.push(t.new_entry_spec(ip, country_code, isp, user_agent, now)), ip),
        t.entries@.push(t.new_entry_spec(ip, country_code, isp, user_agent, now)).len()
            == t.entries@.len() + 1,
        entries_wf(
            t.entries@.push(t.new_entry_spec(ip, country_code, isp, user_agent, now)),
            t.next_id + 1,
        ),
{
    let e = t.new_entry_spec(ip, country_code, isp, user_agent, now);
    lemma_push_wf(t.entries@, t.next_id as int, e);
    let es1 = t.entries@.push(e);
    assert(es1[t.entries@.len() as int] == e);
    assert(contains_ip(es1, ip));
}

/// Law: bulk-importing a network not yet stored succeeds and appends exactly
/// one record holding it, and bulk-importing the very same network again
/// also succeeds while changing nothing — the import is idempotent.
pub proof fn lemma_bulk_import_idempotent(es: Seq<Blocklist>, next_id: int, ip: IpNet, now: i64)
    requires
        !contains_ip(es, ip),
    ensures
        import_fold(es, next_id, seq![ip], now).0.len() == es.len() + 1,
        contains_ip(import_fold(es, next_id, seq![ip], now).0, ip),
        import_fold(
            import_fold(es, next_id, seq![ip], now).0,
            import_fold(es, next_id, seq![ip], now).1,
            seq![ip],
            now,
        ) == import_fold(es, next_id, seq![ip], now),
{
    let s = seq![ip];
    assert(s[0] == ip);
    assert(s.drop_first() =~= Seq::<IpNet>::empty());
    let e = bulk_entry_spec(next_id, ip, now);
    let es1 = es.push(e);
    assert(import_fold(es1, next_id + 1, s.drop_first(), now) == (es1, next_id + 1));
    assert(import_fold(es, next_id, s, now) == (es1, next_id + 1));
    assert(es1[es.len() as int] == e);
    assert(contains_ip(es1, ip));
    assert(import_fold(es1, next_id + 1, s.drop_first(), now).0 =~= es1);
}

} // verus!
