use blocklist::{
    add_ip, app_error_from_query, get_ip, import_ips, parse_nets, AppError, BackendError,
    Blocklist, BlocklistIp, BlocklistIpVersion, BlocklistTable, DbError, IpNet, IpVersion, Pool,
};

fn v4(text: &str) -> IpNet {
    IpNet::parse(text).unwrap()
}

#[test]
fn version_from_str_accepts_both_families_case_insensitively() {
    assert_eq!(IpVersion::from_str("ipv4").unwrap(), IpVersion::Ipv4);
    assert_eq!(IpVersion::from_str("IPv6").unwrap(), IpVersion::Ipv6);
    assert_eq!(IpVersion::from_str("IPV4").unwrap(), IpVersion::Ipv4);
}

#[test]
fn version_from_str_rejects_unknown_text() {
    let err = IpVersion::from_str("both").unwrap_err();
    match err {
        AppError::ParseError(m) => assert_eq!(m, "Unknown IP version both"),
        _ => panic!("wrong error kind"),
    }
}

#[test]
fn version_text_and_code_round_trip() {
    assert_eq!(IpVersion::Ipv4.as_str(), "ipv4");
    assert_eq!(IpVersion::Ipv6.as_str(), "ipv6");
    assert_eq!(IpVersion::Ipv4.code(), 0);
    assert_eq!(IpVersion::Ipv6.code(), 1);
    assert_eq!(IpVersion::from_code(0).unwrap(), IpVersion::Ipv4);
    assert_eq!(IpVersion::from_code(1).unwrap(), IpVersion::Ipv6);
    assert!(matches!(
        IpVersion::from_code(7),
        Err(AppError::ParseError(_))
    ));
}

#[test]
fn unrecognized_codes_are_named_in_the_rejection() {
    for (code, expected) in [
        (7i16, "Unrecognized variant 7"),
        (300, "Unrecognized variant 300"),
        (-3, "Unrecognized variant -3"),
        (i16::MAX, "Unrecognized variant 32767"),
        (i16::MIN, "Unrecognized variant -32768"),
    ] {
        match IpVersion::from_code(code) {
            Err(AppError::ParseError(m)) => assert_eq!(m, expected),
            _ => panic!("code {code} was not rejected as a parse error"),
        }
    }
}

#[test]
fn net_parse_reads_address_and_prefix() {
    match v4("203.0.113.5/32") {
        IpNet::V4 { addr, prefix } => {
            assert_eq!(addr, 0xCB007105);
            assert_eq!(prefix, 32);
        }
        _ => panic!("expected a v4 network"),
    }
    match IpNet::parse("::1/128").unwrap() {
        IpNet::V6 { addr, prefix } => {
            assert_eq!(addr, 1);
            assert_eq!(prefix, 128);
        }
        _ => panic!("expected a v6 network"),
    }
    assert!(matches!(
        IpNet::parse("not an address"),
        Err(AppError::ParseError(_))
    ));
}

#[test]
fn net_text_renders_canonically() {
    assert_eq!(v4("203.0.113.5/32").to_text(), "203.0.113.5/32");
    assert_eq!(
        IpNet::V4 { addr: 0, prefix: 0 }.to_text(),
        "0.0.0.0/0"
    );
    assert_eq!(
        IpNet::V6 { addr: 1, prefix: 128 }.to_text(),
        "::1/128"
    );
}

#[test]
fn net_version_follows_address_family() {
    assert_eq!(v4("10.0.0.0/8").version(), IpVersion::Ipv4);
    assert_eq!(
        IpNet::parse("2001:db8::/32").unwrap().version(),
        IpVersion::Ipv6
    );
}

#[test]
fn parse_nets_maps_all_or_reports_first_failure() {
    let good = vec!["1.2.3.4/32".to_string(), "::/0".to_string()];
    let nets = parse_nets(&good).unwrap();
    assert_eq!(nets.len(), 2);
    assert_eq!(nets[0], v4("1.2.3.4/32"));
    let bad = vec!["1.2.3.4/32".to_string(), "junk".to_string()];
    assert!(matches!(parse_nets(&bad), Err(AppError::ParseError(_))));
}

#[test]
fn pool_grants_up_to_its_bound_and_recovers_after_release() {
    let mut pool = Pool::new(2);
    let a = pool.acquire().unwrap();
    let _b = pool.acquire().unwrap();
    let exhausted = pool.acquire();
    match exhausted {
        Err(e) => {
            assert_eq!(e.status_code(), 500);
            assert!(matches!(e, AppError::DbError(DbError::PoolError(_))));
        }
        Ok(_) => panic!("an exhausted pool granted a lease"),
    }
    pool.release(a);
    assert!(pool.acquire().is_ok());
}

#[test]
fn add_then_list_scenario() {
    let mut pool = Pool::new(20);
    let mut table = BlocklistTable::new();
    let net = v4("203.0.113.5/32");
    add_ip(&mut pool, &mut table, net, None, None, None, 1700000000).unwrap();
    let v4_body = get_ip(&mut pool, &table, Some(IpVersion::Ipv4)).unwrap();
    assert_eq!(v4_body, "203.0.113.5/32");
    let v6_body = get_ip(&mut pool, &table, Some(IpVersion::Ipv6)).unwrap();
    assert_eq!(v6_body, "");
    let again = add_ip(&mut pool, &mut table, net, None, None, None, 1700000001);
    match again {
        Err(e) => {
            assert_eq!(e.status_code(), 400);
            assert!(matches!(
                e,
                AppError::DbError(DbError::UniqueConstraintError(_))
            ));
        }
        Ok(_) => panic!("a duplicate single add succeeded"),
    }
    assert_eq!(table.entries.len(), 1);
}

#[test]
fn single_add_stores_derived_version_and_metadata() {
    let mut pool = Pool::new(20);
    let mut table = BlocklistTable::new();
    add_ip(
        &mut pool,
        &mut table,
        v4("198.51.100.0/24"),
        Some("EX".to_string()),
        Some("Example ISP".to_string()),
        None,
        42,
    )
    .unwrap();
    let entry: &Blocklist = &table.entries[0];
    assert_eq!(entry.id, 1);
    assert_eq!(entry.version, IpVersion::Ipv4);
    assert_eq!(entry.country_code.as_deref(), Some("EX"));
    assert_eq!(entry.isp.as_deref(), Some("Example ISP"));
    assert_eq!(entry.user_agent, None);
    assert_eq!(entry.description, None);
    assert_eq!(entry.added_at, 42);
}

#[test]
fn bulk_import_skips_duplicates_silently() {
    let mut pool = Pool::new(20);
    let mut table = BlocklistTable::new();
    let net = v4("192.0.2.0/24");
    let first = import_ips(&mut pool, &mut table, &vec![net], 7).unwrap();
    assert_eq!(first, 1);
    let second = import_ips(&mut pool, &mut table, &vec![net], 8).unwrap();
    assert_eq!(second, 0);
    assert_eq!(table.entries.len(), 1);
}

#[test]
fn bulk_import_skips_duplicates_within_one_batch() {
    let mut pool = Pool::new(20);
    let mut table = BlocklistTable::new();
    let net = v4("192.0.2.0/24");
    let other = IpNet::parse("2001:db8::/48").unwrap();
    let inserted = import_ips(&mut pool, &mut table, &vec![net, other, net], 7).unwrap();
    assert_eq!(inserted, 2);
    assert_eq!(table.entries.len(), 2);
    assert_eq!(table.entries[1].version, IpVersion::Ipv6);
}

#[test]
fn listing_orders_most_recent_first() {
    let mut pool = Pool::new(20);
    let mut table = BlocklistTable::new();
    add_ip(&mut pool, &mut table, v4("10.0.0.1/32"), None, None, None, 1).unwrap();
    add_ip(&mut pool, &mut table, v4("10.0.0.2/32"), None, None, None, 2).unwrap();
    add_ip(&mut pool, &mut table, v4("10.0.0.3/32"), None, None, None, 3).unwrap();
    let body = get_ip(&mut pool, &table, None).unwrap();
    assert_eq!(body, "10.0.0.3/32\n10.0.0.2/32\n10.0.0.1/32");
}

#[test]
fn listing_on_exhausted_pool_is_an_internal_failure() {
    let mut pool = Pool::new(1);
    let mut table = BlocklistTable::new();
    add_ip(&mut pool, &mut table, v4("10.0.0.1/32"), None, None, None, 1).unwrap();
    let lease = pool.acquire().unwrap();
    let listed = get_ip(&mut pool, &table, None);
    match listed {
        Err(e) => assert_eq!(e.status_code(), 500),
        Ok(_) => panic!("listing succeeded without a free lease"),
    }
    pool.release(lease);
    assert_eq!(get_ip(&mut pool, &table, None).unwrap(), "10.0.0.1/32");
}

#[test]
fn forms_carry_their_fields() {
    let form = BlocklistIp { ip: v4("10.0.0.1/32") };
    assert_eq!(form.ip, v4("10.0.0.1/32"));
    let query = BlocklistIpVersion { ip_version: IpVersion::Ipv6 };
    assert_eq!(query.ip_version, IpVersion::Ipv6);
}

#[test]
fn status_codes_cover_the_whole_taxonomy() {
    assert_eq!(AppError::BadRequest("x".to_string()).status_code(), 400);
    assert_eq!(AppError::ParseError("x".to_string()).status_code(), 400);
    assert_eq!(AppError::NotFound("x".to_string()).status_code(), 404);
    assert_eq!(AppError::Unauthorized("x".to_string()).status_code(), 401);
    assert_eq!(
        AppError::DeviceTransmitRequestDenied("x".to_string()).status_code(),
        403
    );
    assert_eq!(
        AppError::InternalServerError("x".to_string()).status_code(),
        500
    );
    assert_eq!(AppError::TemplatingError("x".to_string()).status_code(), 500);
    assert_eq!(AppError::IdentityError("x".to_string()).status_code(), 500);
    assert_eq!(AppError::SessionError("x".to_string()).status_code(), 500);
    assert_eq!(AppError::CookieError("x".to_string()).status_code(), 500);
    assert_eq!(AppError::FileError("x".to_string()).status_code(), 500);
    assert_eq!(AppError::ApDatabaseError("x".to_string()).status_code(), 500);
    assert_eq!(AppError::OidcError("x".to_string()).status_code(), 500);
    assert_eq!(
        AppError::DnsPacketManipulationError("x".to_string()).status_code(),
        500
    );
    assert_eq!(AppError::EnvVarError("x".to_string()).status_code(), 500);
}

#[test]
fn db_error_statuses_follow_the_taxonomy() {
    let uc = DbError::UniqueConstraintError("dup".to_string());
    assert_eq!(AppError::from(uc).status_code(), 400);
    let fk = DbError::ForeignKeyError("fk".to_string());
    assert_eq!(AppError::from(fk).status_code(), 400);
    let nn = DbError::NotNullError("nn".to_string());
    assert_eq!(AppError::from(nn).status_code(), 400);
    let mig = DbError::MigrationError("m".to_string());
    assert_eq!(AppError::from(mig).status_code(), 500);
    let pool = DbError::PoolError("p".to_string());
    assert_eq!(AppError::from(pool).status_code(), 500);
    let q = DbError::QueryError("q".to_string());
    assert_eq!(AppError::from(q).status_code(), 500);
    let missing = DbError::BackendError(BackendError::DoesNotExist("row".to_string()));
    assert_eq!(AppError::from(missing).status_code(), 404);
    let denied = DbError::BackendError(BackendError::PermissionDenied("no".to_string()));
    assert_eq!(AppError::from(denied).status_code(), 403);
    let pw = DbError::BackendError(BackendError::UserPasswordDoesNotMatch);
    assert_eq!(AppError::from(pw).status_code(), 401);
    let deleted = DbError::BackendError(BackendError::Deleted);
    assert_eq!(AppError::from(deleted).status_code(), 400);
    let empty = DbError::BackendError(BackendError::UpdateParametersEmpty);
    assert_eq!(AppError::from(empty).status_code(), 400);
    let verify = DbError::BackendError(BackendError::UserPasswordVerificationFailed(
        "v".to_string(),
    ));
    assert_eq!(AppError::from(verify).status_code(), 400);
}

#[test]
fn internal_detail_never_reaches_the_caller() {
    let internal = AppError::InternalServerError("secret diagnostic".to_string());
    assert_eq!(internal.public_description(), "Internal server error");
    assert_eq!(
        internal.message(),
        "Internal server error: secret diagnostic"
    );
    let client = AppError::BadRequest("ip malformed".to_string());
    assert_eq!(client.public_description(), "Bad request: ip malformed");
}

#[test]
fn messages_carry_kind_prefixes() {
    let dup = AppError::DbError(DbError::UniqueConstraintError("dup".to_string()));
    assert_eq!(dup.message(), "DbError -> Unique constraint violation: dup");
    assert_eq!(
        dup.public_description(),
        "DbError -> Unique constraint violation: dup"
    );
    let nf = AppError::NotFound("row".to_string());
    assert_eq!(nf.message(), "Not found: row");
    let pw = AppError::DbError(DbError::BackendError(
        BackendError::UserPasswordDoesNotMatch,
    ));
    assert_eq!(pw.message(), "DbError -> User password does not match");
}

#[test]
fn raw_backend_failures_are_classified() {
    let dup = diesel::result::Error::DatabaseError(
        diesel::result::DatabaseErrorKind::UniqueViolation,
        Box::new("duplicate key".to_string()),
    );
    let e = app_error_from_query(dup);
    assert_eq!(e.status_code(), 400);
    assert!(matches!(
        e,
        AppError::DbError(DbError::UniqueConstraintError(_))
    ));
    let missing = app_error_from_query(diesel::result::Error::NotFound);
    assert_eq!(missing.status_code(), 404);
    assert!(matches!(
        missing,
        AppError::DbError(DbError::BackendError(BackendError::DoesNotExist(_)))
    ));
    let broken = app_error_from_query(diesel::result::Error::BrokenTransactionManager);
    assert_eq!(broken.status_code(), 500);
    assert!(matches!(broken, AppError::DbError(DbError::QueryError(_))));
}
