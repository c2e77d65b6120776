use mailsync::config::{
    default_account, email_shape_ok, parse_config, upgrade_command, ConfigError, Protocol, Tls,
};

#[test]
fn email_shapes() {
    assert!(email_shape_ok(b"alice@example.com"));
    assert!(email_shape_ok(b"a@b.co"));
    assert!(email_shape_ok(b"user+tag@mail-server.example.org"));
    assert!(email_shape_ok(b"a.b_c+d@x0.ab"));
    // the local part tolerates inner dots, even doubled
    assert!(email_shape_ok(b"a..b@x.com"));
    // the match is a prefix: trailing text does not spoil it
    assert!(email_shape_ok(b"alice@example.com extra"));

    assert!(!email_shape_ok(b""));
    assert!(!email_shape_ok(b"alice"));
    assert!(!email_shape_ok(b"@example.com"));
    assert!(!email_shape_ok(b"alice@"));
    assert!(!email_shape_ok(b"alice@b"));
    assert!(!email_shape_ok(b".a@x.com"));
    assert!(!email_shape_ok(b"a.@x.com"));
    assert!(!email_shape_ok(b"a@x..com"));
    assert!(!email_shape_ok(b"a@x.c"));
    assert!(!email_shape_ok(b"Alice@example.com"));
    assert!(!email_shape_ok(b"a@x.c0m"));
}

#[test]
fn default_account_values() {
    let a = default_account();
    assert_eq!(a.port, 995);
    assert_eq!(a.tls, Tls::Tls);
    assert_eq!(a.protocol, Protocol::Pop);
    assert!(a.host.is_empty());
    assert!(a.user.is_empty());
    assert!(a.maildir.is_empty());
}

#[test]
fn two_account_config() {
    let text = b"host pop.example.com\nuser alice@example.com\nport 995\ntls tls\nprotocol pop\n\
\nhost smtp.example.com\nuser bob@example.org\nport 587\ntls starttls\nprotocol smtp";
    let accounts = parse_config(text).unwrap();
    assert_eq!(accounts.len(), 2);
    assert_eq!(accounts[0].host, b"pop.example.com".to_vec());
    assert_eq!(accounts[0].port, 995);
    assert_eq!(accounts[0].tls, Tls::Tls);
    assert_eq!(accounts[0].protocol, Protocol::Pop);
    assert_eq!(
        accounts[0].maildir,
        b"/home/user/mail/alice@example.com/INBOX".to_vec()
    );
    assert_eq!(accounts[1].port, 587);
    assert_eq!(accounts[1].tls, Tls::StartTls);
    assert_eq!(accounts[1].protocol, Protocol::Smtp);
    assert_eq!(
        accounts[1].maildir,
        b"/home/user/mail/bob@example.org/INBOX".to_vec()
    );
}

#[test]
fn defaults_survive_minimal_config() {
    let accounts = parse_config(b"host h.example.com\nuser a@b.co").unwrap();
    assert_eq!(accounts.len(), 1);
    assert_eq!(accounts[0].port, 995);
    assert_eq!(accounts[0].tls, Tls::Tls);
    assert_eq!(accounts[0].protocol, Protocol::Pop);
}

#[test]
fn config_rejections() {
    assert_eq!(
        parse_config(b"host h\nuser nomail"),
        Err(ConfigError::InvalidEmail { user: b"nomail".to_vec() })
    );
    assert_eq!(
        parse_config(b"shape-without-value"),
        Err(ConfigError::LineShape { line: b"shape-without-value".to_vec() })
    );
    assert_eq!(
        parse_config(b"colour blue\nuser a@b.co"),
        Err(ConfigError::UnknownKey { key: b"colour".to_vec() })
    );
    assert_eq!(
        parse_config(b"port 99999999999\nuser a@b.co"),
        Err(ConfigError::BadPort { value: b"99999999999".to_vec() })
    );
    assert_eq!(
        parse_config(b"tls maybe\nuser a@b.co"),
        Err(ConfigError::UnknownTls { value: b"maybe".to_vec() })
    );
    assert_eq!(
        parse_config(b"protocol imap\nuser a@b.co"),
        Err(ConfigError::UnknownProtocol { value: b"imap".to_vec() })
    );
}

#[test]
fn plaintext_only_toward_loopback() {
    let ok = parse_config(b"host 127.0.0.1\nuser a@b.co\ntls none");
    assert!(ok.is_ok());
    assert_eq!(ok.unwrap()[0].tls, Tls::Plain);
    assert_eq!(
        parse_config(b"host pop.example.com\nuser a@b.co\ntls none"),
        Err(ConfigError::PlaintextNotLoopback { host: b"pop.example.com".to_vec() })
    );
}

#[test]
fn values_keep_their_spaces() {
    // only the first space splits a line: the value is the rest
    let accounts = parse_config(b"host a b c\nuser a@b.co").unwrap();
    assert_eq!(accounts[0].host, b"a b c".to_vec());
}

#[test]
fn upgrade_commands() {
    assert_eq!(upgrade_command(Protocol::Pop), b"stls\r\n".to_vec());
    assert_eq!(upgrade_command(Protocol::Smtp), b"starttls\r\n".to_vec());
}
