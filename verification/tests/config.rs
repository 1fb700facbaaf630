use rak_basicstation::config::{
    substitute_env_vars, Backend, Concentratord, Configuration, Cups, Filters, Interval, Lns, Logging,
    Metadata, SemtechUdp,
};

fn vars(pairs: &[(&str, &str)]) -> Vec<(String, String)> {
    pairs.iter().map(|(k, v)| (k.to_string(), v.to_string())).collect()
}

#[test]
fn env_vars_are_substituted() {
    let content = "[lns]\nserver=\"$LNS_SERVER\"\nkey=\"$KEY/$KEY\"\n";
    let out = substitute_env_vars(content, &vars(&[("LNS_SERVER", "wss://x:8887"), ("KEY", "k")]));
    assert_eq!(out, "[lns]\nserver=\"wss://x:8887\"\nkey=\"k/k\"\n");
}

#[test]
fn env_vars_in_order_and_prefixes() {
    // At each `$` the longest variable name that follows wins, whatever the order given.
    let out = substitute_env_vars("$AB $A", &vars(&[("A", "1"), ("AB", "2")]));
    assert_eq!(out, "2 1");
    let out = substitute_env_vars("$AB $A", &vars(&[("AB", "2"), ("A", "1")]));
    assert_eq!(out, "2 1");
    // A name followed by more letters still matches its prefix when nothing longer does.
    assert_eq!(substitute_env_vars("$AC", &vars(&[("A", "1"), ("AB", "2")])), "1C");
    // A lone `$` and an unknown name stay as they are.
    assert_eq!(substitute_env_vars("$ $Q", &vars(&[("A", "1")])), "$ $Q");
    // No variables: the text is unchanged.
    assert_eq!(substitute_env_vars("$X", &vec![]), "$X");
    // A replacement is not scanned again for the same variable.
    assert_eq!(substitute_env_vars("$X", &vars(&[("X", "$X$X")])), "$X$X");
}

#[test]
fn defaults() {
    let c = Configuration::default();
    assert_eq!(c.logging.level, "info");
    assert!(!c.logging.log_to_syslog);
    assert_eq!(c.backend.enabled, "concentratord");
    assert_eq!(c.backend.gateway_id, "");
    assert_eq!(c.lns.server, "wss://localhost:8887");
    assert_eq!(c.lns.reconnect_interval, Interval::from_secs(5));
    assert!(!c.cups.enabled);
    assert_eq!(c.cups.oksync_interval, Interval { secs: 86400, nanos: 0 });
    assert_eq!(c.cups.resync_interval, Interval { secs: 60, nanos: 0 });
    assert_eq!(c.metadata.split_delimiter, "=");

    let f = Filters::default();
    assert!(f.forward_crc_ok && !f.forward_crc_invalid && !f.forward_crc_missing);
    let cd = Concentratord::default();
    assert_eq!(cd.event_url, "ipc:///tmp/concentratord_event");
    assert_eq!(cd.command_url, "ipc:///tmp/concentratord_command");
    assert!(!cd.context_caching);
    let s = SemtechUdp::default();
    assert_eq!(s.bind, "0.0.0.0:1700");
    assert!(!s.time_fallback_enabled);
    let b = Backend::default();
    assert_eq!(b.semtech_udp.bind, "0.0.0.0:1700");
    let l = Lns::default();
    assert!(l.discovery_endpoint.is_empty() && l.tls_key.is_empty());
    let cu = Cups::default();
    assert_eq!(cu.credentials_dir, "/var/lib/rak-basicstation/credentials");
    assert!(cu.sig_keys.is_empty());
    let m = Metadata::default();
    assert!(m.statics.is_empty() && m.commands.is_empty());
    assert_eq!(Logging::default().level, "info");
}
