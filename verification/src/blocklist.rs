use vstd::prelude::*;
use vstd::string::StringExecFns;
use crate::error::AppError;
use crate::error::DbError;
use crate::error::STATUS_BAD_REQUEST;
use crate::error::STATUS_INTERNAL_SERVER_ERROR;
use crate::models::IpVersion;
use crate::net::net_text_spec;
use crate::net::parse_net_spec;
use crate::net::IpNet;
use crate::pool::Pool;
use crate::table::bulk_entry_spec;
use crate::table::contains_ip;
use crate::table::entries_wf;
use crate::table::filtered_ips_desc;
use crate::table::import_fold;
use crate::table::lemma_push_wf;
use crate::table::Blocklist;
use crate::table::BlocklistTable;

verus! {

/// The newline-joined rendering of a sequence of networks: each network's
/// canonical text, one per line, and the empty text for no networks.
pub open spec fn listing_spec(ips: Seq<IpNet>) -> Seq<char>
    decreases ips.len(),
{
    if ips.len() == 0 {
        Seq::empty()
    } else if ips.len() == 1 {
        net_text_spec(ips[0])
    } else {
        listing_spec(ips.drop_last()) + seq!['\n'] + net_text_spec(ips.last())
    }
}

/// A filter that no stored record passes selects nothing.
proof fn lemma_no_match_filtered_empty(es: Seq<Blocklist>, v: IpVersion)
    requires
        forall|i: int| 0 <= i < es.len() ==> (#[trigger] es[i]).version != v,
    ensures
        filtered_ips_desc(es, Some(v)) =~= Seq::<IpNet>::empty(),
    decreases es.len(),
{
    if es.len() == 0 {
    } else {
        lemma_no_match_filtered_empty(es.drop_last(), v);
    }
}

/// Law: listing with a version filter that matches no stored record yields
/// the empty text — never a failure.
pub proof fn lemma_empty_match_listing(t: BlocklistTable, v: IpVersion)
    requires
        t.wf(),
        forall|i: int| 0 <= i < t.entries@.len() ==> (#[trigger] t.entries@[i]).version != v,
    ensures
        listing_spec(filtered_ips_desc(t.entries@, Some(v))) =~= Seq::<char>::empty(),
{
    lemma_no_match_filtered_empty(t.entries@, v);
}

/// Lists the blocklist: acquires one lease for the whole operation, renders
/// the stored networks that pass the version filter most recent first,
/// newline-joined, and releases the lease. An empty match yields the empty
/// text, never an error; an exhausted pool yields the pool's internal-class
/// failure and leaves everything unchanged.
pub fn get_ip(pool: &mut Pool, table: &BlocklistTable, filter: Option<IpVersion>) -> (r: Result<
    String,
    AppError,
>)
    requires
        old(pool).wf(),
        table.wf(),
    ensures
        final(pool).wf(),
        *final(pool) == *old(pool),
        old(pool).can_grant() ==> (r matches Ok(s) && s@ == listing_spec(
            filtered_ips_desc(table.entries@, filter),
        )),
        !old(pool).can_grant() ==> (r matches Err(e) && (e matches AppError::DbError(d)
            && d matches DbError::PoolError(_)) && e.status_spec()
            == STATUS_INTERNAL_SERVER_ERROR),
{
    let lease = match pool.acquire() {
        Ok(l) => l,
        Err(e) => {
            return Err(e);
        },
    };
    let n = table.entries.len();
    let mut ips: Vec<IpNet> = Vec::new();
    let mut i: usize = 0;
    proof {
        assert(table.entries@.take(0) =~= Seq::<Blocklist>::empty());
    }
    while i < n
        invariant
            i <= n,
            n == table.entries@.len(),
            table.wf(),
            ips@ == filtered_ips_desc(table.entries@.take(i as int), filter),
            forall|k: int| 0 <= k < ips@.len() ==> (#[trigger] ips@[k]).wf(),
        decreases n - i,
    {
        let keep = match filter {
            Some(v) => table.entries[i].version == v,
            None => true,
        };
        proof {
            let es = table.entries@;
            assert(es.take(i + 1).drop_last() =~= es.take(i as int));
            assert(es.take(i + 1).last() == es[i as int]);
            assert(es[i as int].wf());
        }
        if keep {
            ips.insert(0, table.entries[i].ip);
            proof {
                let es = table.entries@;
                assert(ips@ =~= seq![es[i as int].ip] + filtered_ips_desc(
                    es.take(i as int),
                    filter,
                ));
            }
        }
        i += 1;
    }
    proof {
        assert(table.entries@.take(n as int) =~= table.entries@);
    }
    let mut out = String::new();
    let mut k: usize = 0;
    proof {
        assert(ips@.take(0) =~= Seq::<IpNet>::empty());
    }
    while k < ips.len()
        invariant
            k <= ips@.len(),
            forall|j: int| 0 <= j < ips@.len() ==> (#[trigger] ips@[j]).wf(),
            out@ == listing_spec(ips@.take(k as int)),
        decreases ips@.len() - k,
    {
        proof {
            assert(ips@.take(k + 1).drop_last() =~= ips@.take(k as int));
            assert(ips@.take(k + 1).last() == ips@[k as int]);
        }
        if k > 0 {
            out.append("\n");
            proof {
                reveal_strlit("\n");
                assert("\n"@ =~= seq!['\n']);
            }
        }
        let text = ips[k].to_text();
        out.append(text.as_str());
        k += 1;
    }
    proof {
        assert(ips@.take(ips@.len() as int) =~= ips@);
    }
    pool.release(lease);
    Ok(out)
}

/// Adds one network: acquires one lease for the whole operation, derives the
/// version tag from the network's address family, and inserts a single
/// record with no description. A network already stored is a
/// client-correctable unique-constraint failure and changes nothing; an
/// exhausted pool is an internal-class failure and changes nothing. The
/// lease is released on every path.
pub fn add_ip(
    pool: &mut Pool,
    table: &mut BlocklistTable,
    ip: IpNet,
    country_code: Option<String>,
    isp: Option<String>,
    user_agent: Option<String>,
    now: i64,
) -> (r: Result<(), AppError>)
    requires
        old(pool).wf(),
        old(table).wf(),
        ip.wf(),
        old(table).next_id < i64::MAX,
    ensures
        final(pool).wf(),
        *final(pool) == *old(pool),
        final(table).wf(),
        !old(pool).can_grant() ==> (r matches Err(e) && (e matches AppError::DbError(d)
            && d matches DbError::PoolError(_)) && e.status_spec()
            == STATUS_INTERNAL_SERVER_ERROR && *final(table) == *old(table)),
        (old(pool).can_grant() && old(table).has_ip_spec(ip)) ==> (r matches Err(e) && (e matches
            AppError::DbError(d) && (d matches DbError::UniqueConstraintError(m) && m@
            == "duplicate key value violates unique constraint"@)) && e.status_spec()
            == STATUS_BAD_REQUEST && *final(table) == *old(table)),
        (old(pool).can_grant() && !old(table).has_ip_spec(ip)) ==> (r matches Ok(_)
            && final(table).entries@ == old(table).entries@.push(
            old(table).new_entry_spec(ip, country_code, isp, user_agent, now),
        ) && final(table).next_id == old(table).next_id + 1),
{
    let lease = match pool.acquire() {
        Ok(l) => l,
        Err(e) => {
            return Err(e);
        },
    };
    if table.has_ip(ip) {
        pool.release(lease);
        return Err(
            AppError::DbError(
                DbError::UniqueConstraintError(
                    "duplicate key value violates unique constraint".to_owned(),
                ),
            ),
        );
    }
    let entry = Blocklist {
        id: table.next_id,
        ip,
        version: ip.version(),
        country_code,
        isp,
        user_agent,
        description: None,
        added_at: now,
    };
    proof {
        lemma_push_wf(table.entries@, table.next_id as int, entry);
    }
    table.entries.push(entry);
    table.next_id = table.next_id + 1;
    pool.release(lease);
    Ok(())
}

/// Bulk-imports networks: acquires one lease for the whole operation and
/// inserts one record per network not already stored, skipping networks
/// already present (also within the batch) silently rather than failing.
/// Returns how many records were inserted. Only an exhausted pool fails,
/// with an internal-class failure, changing nothing.
pub fn import_ips(pool: &mut Pool, table: &mut BlocklistTable, ips: &Vec<IpNet>, now: i64) -> (r:
    Result<usize, AppError>)
    requires
        old(pool).wf(),
        old(table).wf(),
        forall|i: int| 0 <= i < ips@.len() ==> (#[trigger] ips@[i]).wf(),
        old(table).next_id + ips@.len() <= i64::MAX,
    ensures
        final(pool).wf(),
        *final(pool) == *old(pool),
        final(table).wf(),
        !old(pool).can_grant() ==> (r matches Err(e) && (e matches AppError::DbError(d)
            && d matches DbError::PoolError(_)) && e.status_spec()
            == STATUS_INTERNAL_SERVER_ERROR && *final(table) == *old(table)),
        old(pool).can_grant() ==> (r matches Ok(k) && (
        final(table).entries@,
        final(table).next_id as int,
        ) == import_fold(old(table).entries@, old(table).next_id as int, ips@, now)
            && k == final(table).entries@.len() - old(table).entries@.len()),
{
    let lease = match pool.acquire() {
        Ok(l) => l,
        Err(e) => {
            return Err(e);
        },
    };
    let mut count: usize = 0;
    let mut i: usize = 0;
    proof {
        assert(ips@.skip(0) =~= ips@);
    }
    while i < ips.len()
        invariant
            i <= ips@.len(),
            table.wf(),
            forall|j: int| 0 <= j < ips@.len() ==> (#[trigger] ips@[j]).wf(),
            table.next_id + (ips@.len() - i) <= i64::MAX,
            table.entries@.len() == old(table).entries@.len() + count,
            count <= i,
            import_fold(table.entries@, table.next_id as int, ips@.skip(i as int), now)
                == import_fold(old(table).entries@, old(table).next_id as int, ips@, now),
        decreases ips@.len() - i,
    {
        let ip = ips[i];
        proof {
            assert(ips@.skip(i as int)[0] == ips@[i as int]);
            assert(ips@.skip(i as int).drop_first() =~= ips@.skip(i + 1));
        }
        if !table.has_ip(ip) {
            let entry = Blocklist {
                id: table.next_id,
                ip,
                version: ip.version(),
                country_code: None,
                isp: None,
                user_agent: None,
                description: None,
                added_at: now,
            };
            proof {
                assert(entry == bulk_entry_spec(table.next_id as int, ip, now));
                lemma_push_wf(table.entries@, table.next_id as int, entry);
            }
            table.entries.push(entry);
            table.next_id = table.next_id + 1;
            count += 1;
        }
        i += 1;
    }
    proof {
        assert(ips@.skip(ips@.len() as int) =~= Seq::<IpNet>::empty());
    }
    pool.release(lease);
    Ok(count)
}

/// Parses a batch of CIDR texts into networks: all of them parse and the
/// networks are returned in order, or the first rejected text yields a parse
/// error.
pub fn parse_nets(items: &Vec<String>) -> (r: Result<Vec<IpNet>, AppError>)
    ensures
        r matches Ok(v) ==> (v@.len() == items@.len() && forall|i: int|
            0 <= i < items@.len() ==> parse_net_spec(#[trigger] items@[i]@) == Some(v@[i])
                && v@[i].wf()),
        r matches Err(e) ==> ((e matches AppError::ParseError(_)) && exists|i: int|
            0 <= i < items@.len() && parse_net_spec(#[trigger] items@[i]@) is None),
{
    let mut out: Vec<IpNet> = Vec::new();
    let mut i: usize = 0;
    while i < items.len()
        invariant
            i <= items@.len(),
            out@.len() == i,
            forall|j: int|
                0 <= j < i ==> parse_net_spec(#[trigger] items@[j]@) == Some(out@[j])
                    && out@[j].wf(),
        decreases items@.len() - i,
    {
        match IpNet::parse(items[i].as_str()) {
            Ok(n) => {
                out.push(n);
            },
            Err(e) => {
                return Err(e);
            },
        }
        i += 1;
    }
    Ok(out)
}

} // verus!
