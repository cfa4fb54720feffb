use smartjoin::spu_cli::{find_spu_id_from_env, SpuCliError, SpuIdEnv, SpuOpt, TlsConfig, TlsPaths};
use smartjoin::version::{SubcommandMetadata, VersionOpt};

fn env(id: Option<&str>, index: Option<&str>, min: Option<&str>) -> SpuIdEnv {
    SpuIdEnv {
        spu_id: id.map(|s| s.to_string()),
        spu_index: index.map(|s| s.to_string()),
        spu_min: min.map(|s| s.to_string()),
    }
}

#[test]
fn spu_id_from_env_variants() {
    assert_eq!(find_spu_id_from_env(&env(Some("5042"), None, None)), Ok(5042));
    assert_eq!(find_spu_id_from_env(&env(Some("x"), None, None)), Err(SpuCliError::InvalidSpuId));
    assert_eq!(find_spu_id_from_env(&env(None, Some("fluvio-spu-3"), Some("5000"))), Ok(5003));
    assert_eq!(find_spu_id_from_env(&env(None, Some("spu-7"), None)), Ok(7));
    assert_eq!(find_spu_id_from_env(&env(None, Some("spu7"), None)), Err(SpuCliError::InvalidSpuIndexFormat));
    assert_eq!(find_spu_id_from_env(&env(None, Some("spu-"), None)), Err(SpuCliError::InvalidSpuIndex));
    assert_eq!(find_spu_id_from_env(&env(None, Some("spu-1"), Some("z"))), Err(SpuCliError::InvalidSpuMin));
    assert_eq!(find_spu_id_from_env(&env(None, Some("spu-2147483647"), Some("1"))), Err(SpuCliError::SpuIdOverflow));
    assert_eq!(find_spu_id_from_env(&env(None, None, None)), Err(SpuCliError::SpuIdNotFound));
}

#[test]
fn spu_config_overrides_and_tls() {
    let opt = SpuOpt {
        id: Some(9),
        bind_public: Some("0.0.0.0:1000".to_string()),
        log_size: Some("2Gi".to_string()),
        peer_max_bytes: 77,
        tls: TlsConfig { tls: true, bind_non_tls_public: Some("0.0.0.0:2000".to_string()), ..Default::default() },
        ..Default::default()
    };
    let (c, tls_addr) = opt.as_spu_config(&env(None, None, None)).unwrap();
    assert_eq!(c.id, 9);
    assert_eq!(c.public_endpoint, "0.0.0.0:2000");
    assert_eq!(tls_addr, Some("0.0.0.0:1000".to_string()));
    assert_eq!(c.log.size, "2Gi");
    assert_eq!(c.peer_max_bytes, 77);
    assert_eq!(c.private_endpoint, "0.0.0.0:9006");
}

#[test]
fn spu_config_errors() {
    let opt = SpuOpt::default();
    assert_eq!(opt.as_spu_config(&env(None, None, None)).err(), Some(SpuCliError::SpuIdNotFound));
    let opt = SpuOpt { id: Some(1), tls: TlsConfig { tls: true, ..Default::default() }, ..Default::default() };
    assert_eq!(opt.as_spu_config(&env(None, None, None)).err(), Some(SpuCliError::MissingNonTlsPublicAddr));
}

#[test]
fn plugin_listing_skips_nameless() {
    let ms = vec![
        SubcommandMetadata { title: "Cloud".to_string(), version: "1.0".to_string(), file_name: Some("fluvio-cloud".to_string()) },
        SubcommandMetadata { title: "X".to_string(), version: "2".to_string(), file_name: None },
    ];
    let r = VersionOpt { json: false }.format_subcommand_metadata(Some(ms)).unwrap();
    assert_eq!(r, vec![("Cloud (fluvio-cloud)".to_string(), "1.0".to_string())]);
    assert_eq!(VersionOpt::default().format_subcommand_metadata(None), None);
}

#[test]
fn tls_acceptor_paths_checks() {
    let off = TlsConfig::default();
    assert_eq!(off.acceptor_paths(), Ok(None));
    let mut t = TlsConfig { tls: true, ..Default::default() };
    assert_eq!(t.acceptor_paths(), Err(SpuCliError::MissingServerCert));
    t.server_cert = Some("c.pem".to_string());
    assert_eq!(t.acceptor_paths(), Err(SpuCliError::MissingServerKey));
    t.server_key = Some("k.pem".to_string());
    assert_eq!(
        t.acceptor_paths(),
        Ok(Some(TlsPaths { server_cert: "c.pem".to_string(), server_key: "k.pem".to_string(), ca_cert: None }))
    );
    t.enable_client_cert = true;
    assert_eq!(t.acceptor_paths(), Err(SpuCliError::MissingCaCert));
    t.ca_cert = Some("ca.pem".to_string());
    assert_eq!(t.acceptor_paths().unwrap().unwrap().ca_cert, Some("ca.pem".to_string()));
}

#[test]
fn spu_id_parse_edges() {
    assert_eq!(find_spu_id_from_env(&env(Some("+5"), None, None)), Ok(5));
    assert_eq!(find_spu_id_from_env(&env(Some("-2147483648"), None, None)), Ok(-2147483648));
    assert_eq!(find_spu_id_from_env(&env(Some("2147483647"), None, None)), Ok(2147483647));
    assert_eq!(find_spu_id_from_env(&env(Some("2147483648"), None, None)), Err(SpuCliError::InvalidSpuId));
    assert_eq!(find_spu_id_from_env(&env(Some("99999999999"), None, None)), Err(SpuCliError::InvalidSpuId));
    assert_eq!(find_spu_id_from_env(&env(Some("-"), None, None)), Err(SpuCliError::InvalidSpuId));
    assert_eq!(find_spu_id_from_env(&env(Some(""), None, None)), Err(SpuCliError::InvalidSpuId));
    assert_eq!(find_spu_id_from_env(&env(Some("007"), None, None)), Ok(7));
    assert_eq!(find_spu_id_from_env(&env(Some("1 "), None, None)), Err(SpuCliError::InvalidSpuId));
}
