use irelia::process_info::base64_encode;
use irelia::process_info::basic_auth_header;
use irelia::process_info::extract_from_args;
use irelia::process_info::get_running_client;
use irelia::process_info::parse_lock_file;
use irelia::process_info::parse_port;
use irelia::text::dec_string;
use irelia::text::i32_string;
use irelia::text::str_starts_with;
use irelia::DiscoveryReason;
use irelia::Error;

#[test]
fn lock_file_scenario() {
    let credentials = parse_lock_file("LeagueClient:1234:54321:abcDEF:https").unwrap();
    assert_eq!(credentials.port, 54321);
    assert_eq!(credentials.auth_token, "abcDEF");
}

#[test]
fn malformed_lock_files_always_fail_discovery() {
    let cases = vec![
        "",
        "LeagueClient",
        "LeagueClient:1234:54321:abcDEF",
        "LeagueClient:1234:54321:abcDEF:https:extra",
        "LeagueClient:1234:notaport:abcDEF:https",
        "LeagueClient:1234::abcDEF:https",
        "LeagueClient:1234:99999:abcDEF:https",
        "LeagueClient:1234:54 21:abcDEF:https",
    ];
    for contents in cases {
        match parse_lock_file(contents) {
            Err(Error::DiscoveryFailure { reason }) => {
                assert_eq!(reason, DiscoveryReason::MalformedCredentials, "case {contents:?}");
            }
            other => panic!("expected a discovery failure for {contents:?}, got {other:?}"),
        }
    }
}

#[test]
fn discovery_prefers_process_arguments() {
    let args = vec![
        String::from("--no-rads"),
        String::from("--app-port=50123"),
        String::from("--remoting-auth-token=SECRET-REDACTED"),
    ];
    let lock = String::from("LeagueClient:1:2:other:https");
    let credentials =
        get_running_client(Some(&args), false, false, Some(&lock)).unwrap();
    assert_eq!(credentials.port, 50123);
    assert_eq!(credentials.auth_token, "SECRET-REDACTED");
}

#[test]
fn discovery_not_running_without_processes() {
    let r = get_running_client(None, false, false, None);
    match r {
        Err(Error::DiscoveryFailure { reason }) => {
            assert_eq!(reason, DiscoveryReason::NotRunning);
        }
        other => panic!("expected not-running, got {other:?}"),
    }
}

#[test]
fn forced_fallback_reads_the_lock_file() {
    let args = vec![String::from("--app-port=50123"), String::from("--remoting-auth-token=t")];
    let lock = String::from("LeagueClient:1234:54321:abcDEF:https");
    let credentials = get_running_client(Some(&args), true, true, Some(&lock)).unwrap();
    assert_eq!(credentials.port, 54321);
    assert_eq!(credentials.auth_token, "abcDEF");
}

#[test]
fn fallback_without_a_lock_file_fails() {
    let r = get_running_client(None, true, false, None);
    match r {
        Err(Error::DiscoveryFailure { reason }) => {
            assert_eq!(reason, DiscoveryReason::LockFileUnavailable);
        }
        other => panic!("expected lock-file-unavailable, got {other:?}"),
    }
}

#[test]
fn argument_extraction_needs_both_flags() {
    let only_port = vec![String::from("--app-port=1234")];
    assert!(extract_from_args(&only_port).is_none());
    let only_token = vec![String::from("--remoting-auth-token=t")];
    assert!(extract_from_args(&only_token).is_none());
    let bad_port = vec![
        String::from("--app-port=nope"),
        String::from("--remoting-auth-token=t"),
    ];
    assert!(extract_from_args(&bad_port).is_none());
    let both = vec![
        String::from("--remoting-auth-token=t"),
        String::from("--app-port=1234"),
    ];
    let credentials = extract_from_args(&both).unwrap();
    assert_eq!(credentials.port, 1234);
    assert_eq!(credentials.auth_token, "t");
}

#[test]
fn port_parsing_is_exact() {
    assert_eq!(parse_port("54321"), Some(54321));
    assert_eq!(parse_port("0"), Some(0));
    assert_eq!(parse_port("007"), Some(7));
    assert_eq!(parse_port("65535"), Some(65535));
    assert_eq!(parse_port("65536"), None);
    assert_eq!(parse_port(""), None);
    assert_eq!(parse_port("12a"), None);
    assert_eq!(parse_port("-1"), None);
    assert_eq!(parse_port("999999999999999999"), None);
}

#[test]
fn base64_encoding_matches_the_reference_alphabet() {
    assert_eq!(base64_encode(&Vec::new()), b"");
    assert_eq!(base64_encode(&b"f".to_vec()), b"Zg==");
    assert_eq!(base64_encode(&b"fo".to_vec()), b"Zm8=");
    assert_eq!(base64_encode(&b"foo".to_vec()), b"Zm9v");
    assert_eq!(base64_encode(&b"foob".to_vec()), b"Zm9vYg==");
    assert_eq!(base64_encode(&b"fooba".to_vec()), b"Zm9vYmE=");
    assert_eq!(base64_encode(&b"foobar".to_vec()), b"Zm9vYmFy");
    assert_eq!(base64_encode(&vec![0xfb, 0xff, 0xbf]), b"+/+/");
}

#[test]
fn auth_header_uses_the_basic_scheme() {
    assert_eq!(basic_auth_header("abcDEF"), "Basic cmlvdDphYmNERUY=");
    assert_eq!(basic_auth_header("tok"), "Basic cmlvdDp0b2s=");
    assert_eq!(basic_auth_header(""), "Basic cmlvdDo=");
}

#[test]
fn decimal_rendering() {
    assert_eq!(dec_string(0), "0");
    assert_eq!(dec_string(54321), "54321");
    assert_eq!(dec_string(4294967295), "4294967295");
    assert_eq!(i32_string(5), "5");
    assert_eq!(i32_string(-3), "-3");
    assert_eq!(i32_string(i32::MIN), "-2147483648");
    assert_eq!(i32_string(i32::MAX), "2147483647");
}

#[test]
fn prefix_tests() {
    assert!(str_starts_with("--app-port=99", "--app-port="));
    assert!(!str_starts_with("--app-port", "--app-port="));
    assert!(!str_starts_with("--app-pory=99", "--app-port="));
    assert!(str_starts_with("anything", ""));
}
