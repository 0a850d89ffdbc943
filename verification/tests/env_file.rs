use arch_demo::env_file::{build_frontend, program_pubkey_of};

const PRISTINE: &str =
    "VITE_PROGRAM_PUBKEY=\nVITE_WALL_ACCOUNT_PUBKEY=\nVITE_NETWORK=\nVITE_RPC_URL=http://old:8080";

const WRITTEN: &str =
    "VITE_PROGRAM_PUBKEY=ab\nVITE_WALL_ACCOUNT_PUBKEY=cd\nVITE_NETWORK=regtest\nVITE_RPC_URL=http://new:9090";

#[test]
fn configures_a_pristine_file() {
    let updated = build_frontend(PRISTINE, Some("http://new:9090"), "ab", "cd", "regtest");
    assert_eq!(updated, WRITTEN);
}

#[test]
fn configuring_again_changes_nothing() {
    let again = build_frontend(WRITTEN, Some("http://new:9090"), "ab", "cd", "regtest");
    assert_eq!(again, WRITTEN);
    for content in ["", "A=1", "A=1\r\n", PRISTINE, "VITE_NETWORK=x\r\nVITE_NETWORK=y", "\n\n"] {
        let once = build_frontend(content, Some("http://n"), "p", "w", "net");
        let twice = build_frontend(&once, Some("http://n"), "p", "w", "net");
        assert_eq!(twice, once);
        let once = build_frontend(content, None, "p", "w", "net");
        let twice = build_frontend(&once, None, "p", "w", "net");
        assert_eq!(twice, once);
    }
}

#[test]
fn new_values_take_the_place_of_old_ones() {
    let updated = build_frontend(WRITTEN, Some("http://other:1/"), "0123", "", "testnet");
    assert_eq!(
        updated,
        "VITE_PROGRAM_PUBKEY=0123\nVITE_WALL_ACCOUNT_PUBKEY=\nVITE_NETWORK=testnet\nVITE_RPC_URL=http://other:1/"
    );
}

#[test]
fn keeps_other_lines_as_they_are() {
    let content = "# frontend\nVITE_PROGRAM_PUBKEY=\nOTHER=1\n\nVITE_WALL_ACCOUNT_PUBKEY=\nVITE_NETWORK=\nVITE_RPC_URL=http://old:8080\nLAST=x\n";
    let updated = build_frontend(content, Some("http://new:9090"), "ab", "cd", "regtest");
    assert_eq!(
        updated,
        "# frontend\nVITE_PROGRAM_PUBKEY=ab\nOTHER=1\n\nVITE_WALL_ACCOUNT_PUBKEY=cd\nVITE_NETWORK=regtest\nVITE_RPC_URL=http://new:9090\nLAST=x\n"
    );
}

#[test]
fn a_key_counts_only_where_it_begins_a_line() {
    let updated = build_frontend(
        "X_VITE_NETWORK=a\nVITE_PROGRAM_PUBKEY=\nVITE_WALL_ACCOUNT_PUBKEY=\nVITE_NETWORK=\n",
        None,
        "p",
        "w",
        "regtest",
    );
    assert_eq!(
        updated,
        "X_VITE_NETWORK=a\nVITE_PROGRAM_PUBKEY=p\nVITE_WALL_ACCOUNT_PUBKEY=w\nVITE_NETWORK=regtest\n"
    );
    let updated = build_frontend(
        "VITE_PROGRAM_PUBKEY=VITE_NETWORK=\n VITE_WALL_ACCOUNT_PUBKEY=\nVITE_WALL_ACCOUNT_PUBKEY=\nVITE_NETWORK=\n",
        None,
        "p",
        "w",
        "n",
    );
    assert_eq!(
        updated,
        "VITE_PROGRAM_PUBKEY=p\n VITE_WALL_ACCOUNT_PUBKEY=\nVITE_WALL_ACCOUNT_PUBKEY=w\nVITE_NETWORK=n\n"
    );
}

#[test]
fn a_comment_that_names_a_key_stays() {
    let content = "VITE_PROGRAM_PUBKEY=\nVITE_WALL_ACCOUNT_PUBKEY=\nVITE_NETWORK=\n# VITE_RPC_URL=old\nVITE_RPC_URL=http://old:8080\n";
    let updated = build_frontend(content, Some("http://new:9090"), "ab", "cd", "regtest");
    assert_eq!(
        updated,
        "VITE_PROGRAM_PUBKEY=ab\nVITE_WALL_ACCOUNT_PUBKEY=cd\nVITE_NETWORK=regtest\n# VITE_RPC_URL=old\nVITE_RPC_URL=http://new:9090\n"
    );
}

#[test]
fn leaves_the_rpc_line_without_a_url() {
    let updated = build_frontend(PRISTINE, None, "ab", "cd", "regtest");
    assert_eq!(
        updated,
        "VITE_PROGRAM_PUBKEY=ab\nVITE_WALL_ACCOUNT_PUBKEY=cd\nVITE_NETWORK=regtest\nVITE_RPC_URL=http://old:8080"
    );
    let updated = build_frontend("A=1\n", None, "ab", "cd", "regtest");
    assert_eq!(
        updated,
        "A=1\nVITE_PROGRAM_PUBKEY=ab\nVITE_WALL_ACCOUNT_PUBKEY=cd\nVITE_NETWORK=regtest\n"
    );
}

#[test]
fn line_endings_are_kept() {
    let content = "VITE_PROGRAM_PUBKEY=old\r\nVITE_WALL_ACCOUNT_PUBKEY=\r\nVITE_NETWORK=x\nVITE_RPC_URL=y\r\n";
    let updated = build_frontend(content, Some("u"), "p", "w", "n");
    assert_eq!(
        updated,
        "VITE_PROGRAM_PUBKEY=p\r\nVITE_WALL_ACCOUNT_PUBKEY=w\r\nVITE_NETWORK=n\nVITE_RPC_URL=u\r\n"
    );
    let updated = build_frontend("VITE_NETWORK=x\r", None, "p", "w", "n");
    assert_eq!(
        updated,
        "VITE_NETWORK=n\r\nVITE_PROGRAM_PUBKEY=p\nVITE_WALL_ACCOUNT_PUBKEY=w\n"
    );
    let updated = build_frontend("VITE_PROGRAM_PUBKEY=\nVITE_WALL_ACCOUNT_PUBKEY=\nVITE_NETWORK=x\r", None, "p", "w", "n");
    assert_eq!(
        updated,
        "VITE_PROGRAM_PUBKEY=p\nVITE_WALL_ACCOUNT_PUBKEY=w\nVITE_NETWORK=n"
    );
}

#[test]
fn a_key_that_is_absent_is_appended() {
    assert_eq!(
        build_frontend("", Some("http://n"), "p", "w", "net"),
        "VITE_PROGRAM_PUBKEY=p\nVITE_WALL_ACCOUNT_PUBKEY=w\nVITE_NETWORK=net\nVITE_RPC_URL=http://n\n"
    );
    assert_eq!(
        build_frontend("A=1\nB=2", Some("http://n"), "p", "w", "net"),
        "A=1\nB=2\nVITE_PROGRAM_PUBKEY=p\nVITE_WALL_ACCOUNT_PUBKEY=w\nVITE_NETWORK=net\nVITE_RPC_URL=http://n\n"
    );
    assert_eq!(
        build_frontend("VITE_NETWORK=\nVITE_RPC_URL=x", Some("http://n"), "p", "w", "net"),
        "VITE_NETWORK=net\nVITE_RPC_URL=http://n\nVITE_PROGRAM_PUBKEY=p\nVITE_WALL_ACCOUNT_PUBKEY=w\n"
    );
}

#[test]
fn every_line_of_a_key_takes_the_value() {
    let updated = build_frontend(
        "VITE_RPC_URL=x\nA=1\nVITE_RPC_URL=y\n",
        Some("http://n"),
        "p",
        "w",
        "net",
    );
    assert_eq!(
        updated,
        "VITE_RPC_URL=http://n\nA=1\nVITE_RPC_URL=http://n\nVITE_PROGRAM_PUBKEY=p\nVITE_WALL_ACCOUNT_PUBKEY=w\nVITE_NETWORK=net\n"
    );
}

#[test]
fn writes_the_values_as_they_are() {
    let updated = build_frontend(
        "VITE_RPC_URL=old",
        Some("http://h/$0/${x}$1?a=VITE_NETWORK="),
        "TESTNET_VITE=",
        "",
        "MAINNET",
    );
    assert_eq!(
        updated,
        "VITE_RPC_URL=http://h/$0/${x}$1?a=VITE_NETWORK=\nVITE_PROGRAM_PUBKEY=TESTNET_VITE=\nVITE_WALL_ACCOUNT_PUBKEY=\nVITE_NETWORK=MAINNET\n"
    );
}

/// The same configuration, line by line.
fn by_lines(
    content: &str,
    rpc_url: Option<&str>,
    program_pubkey: &str,
    wall_pubkey: &str,
    network: &str,
) -> String {
    let mut text = content.to_string();
    let mut settings = vec![
        ("VITE_PROGRAM_PUBKEY=", program_pubkey),
        ("VITE_WALL_ACCOUNT_PUBKEY=", wall_pubkey),
        ("VITE_NETWORK=", network),
    ];
    if let Some(url) = rpc_url {
        settings.push(("VITE_RPC_URL=", url));
    }
    for (key, value) in settings {
        let mut out = String::new();
        let mut found = false;
        for line in text.split_inclusive('\n') {
            let body = line.strip_suffix('\n').map_or(line, |l| l.strip_suffix('\r').unwrap_or(l));
            if body.starts_with(key) {
                found = true;
                out.push_str(key);
                out.push_str(value);
                out.push_str(&line[body.len()..]);
            } else {
                out.push_str(line);
            }
        }
        if !found {
            if !out.is_empty() && !out.ends_with('\n') {
                out.push('\n');
            }
            out.push_str(key);
            out.push_str(value);
            out.push('\n');
        }
        text = out;
    }
    text
}

/// The configuration of a template by replacement of the bare keys and of
/// the RPC line.
fn by_patterns(
    content: &str,
    rpc_url: &str,
    program_pubkey: &str,
    wall_pubkey: &str,
    network: &str,
) -> String {
    let env_content = content
        .replace("VITE_PROGRAM_PUBKEY=", &format!("VITE_PROGRAM_PUBKEY={}", program_pubkey))
        .replace(
            "VITE_WALL_ACCOUNT_PUBKEY=",
            &format!("VITE_WALL_ACCOUNT_PUBKEY={}", wall_pubkey),
        )
        .replace("VITE_NETWORK=", &format!("VITE_NETWORK={}", network));
    let re = regex::Regex::new(r"VITE_RPC_URL=.*").unwrap();
    re.replace(&env_content, regex::NoExpand(&format!("VITE_RPC_URL={}", rpc_url)))
        .to_string()
}

#[test]
fn agrees_with_the_work_done_line_by_line() {
    let contents = [
        PRISTINE,
        WRITTEN,
        "",
        "\n",
        "\r\n\r",
        "VITE_RPC_URL=",
        "VITE_RPC_URL=\n",
        "VITE_RPC_URL=a\r\nVITE_RPC_URL=b\r\n",
        "x VITE_RPC_URL=y z\n\nVITE_NETWORK=VITE_NETWORK=\n",
        "VITE_PROGRAM_PUBKEY=VITE_PROGRAM_PUBKEY=VITE_WALL_ACCOUNT_PUBKEY=\nVITE_RPC_URL",
        "VITE_VITE_NETWORK=\u{e9}\nVITE_RPC_URL=\u{1F600}\u{2028}more\nend",
        "VITE_PROGRAM_PUBKEYVITE_PROGRAM_PUBKEY==\tVITE_RPC_URL=\u{b}\u{c}\u{85}x\n",
        "# a\nVITE_PROGRAM_PUBKEY=\nVITE_WALL_ACCOUNT_PUBKEY=\nVITE_NETWORK=\nVITE_RPC_URL=old\n# b\n",
        "VITE_NETWORK=\r",
        "VITE_NETWORK=\r\r\n\rVITE_NETWORK=\n",
    ];
    let values = [
        ("ab", "cd", "regtest"),
        ("", "", ""),
        ("VITE_NETWORK=", "VITE_RPC_URL=", "VITE_PROGRAM_PUBKEY="),
        ("=", "VITE_", "\u{1F600}"),
        ("TESTNET", "A_B", "MAINNET"),
    ];
    let urls = [None, Some(""), Some("http://new:9090"), Some("VITE_RPC_URL=b")];
    for content in contents {
        for (program, wall, network) in values {
            for url in urls {
                assert_eq!(
                    build_frontend(content, url, program, wall, network),
                    by_lines(content, url, program, wall, network),
                    "{:?} {:?} {:?} {:?} {:?}",
                    content,
                    url,
                    program,
                    wall,
                    network
                );
            }
        }
    }
}

#[test]
fn agrees_on_templates_with_replacement_by_patterns() {
    let templates = [
        PRISTINE,
        "VITE_PROGRAM_PUBKEY=\nVITE_WALL_ACCOUNT_PUBKEY=\nVITE_NETWORK=\nVITE_RPC_URL=\n",
        "# a\nVITE_RPC_URL=http://x y\nVITE_NETWORK=\n\nVITE_WALL_ACCOUNT_PUBKEY=\nB=2\nVITE_PROGRAM_PUBKEY=\n",
        "VITE_NETWORK=\nVITE_PROGRAM_PUBKEY=\nVITE_RPC_URL=old\nVITE_WALL_ACCOUNT_PUBKEY=",
    ];
    let values = [("ab", "cd", "regtest"), ("", "", ""), ("0f", "TESTNET", "x=y")];
    for content in templates {
        for (program, wall, network) in values {
            for url in ["", "http://new:9090", "$1"] {
                assert_eq!(
                    build_frontend(content, Some(url), program, wall, network),
                    by_patterns(content, url, program, wall, network)
                );
            }
        }
    }
}

#[test]
fn reads_the_program_identifier() {
    assert_eq!(program_pubkey_of("VITE_PROGRAM_PUBKEY=abcd\nVITE_NETWORK=x"), "abcd");
    assert_eq!(program_pubkey_of("A=1\nVITE_PROGRAM_PUBKEY=ef01"), "ef01");
    assert_eq!(program_pubkey_of("A=1\nVITE_PROGRAM_PUBKEY=ef01\n"), "ef01");
}

#[test]
fn reads_nothing_where_the_key_has_no_value_or_no_line() {
    assert_eq!(program_pubkey_of(PRISTINE), "");
    assert_eq!(program_pubkey_of(""), "");
    assert_eq!(program_pubkey_of("A=1\nB=2"), "");
    assert_eq!(program_pubkey_of("VITE_PROGRAM_PUBKEY"), "");
    assert_eq!(program_pubkey_of(" VITE_PROGRAM_PUBKEY=ab"), "");
    assert_eq!(program_pubkey_of("#VITE_PROGRAM_PUBKEY=ab\n"), "");
}

#[test]
fn reads_the_first_line_that_begins_with_the_key() {
    assert_eq!(
        program_pubkey_of("VITE_PROGRAM_PUBKEY=\nVITE_PROGRAM_PUBKEY=ab"),
        ""
    );
    assert_eq!(
        program_pubkey_of("xVITE_PROGRAM_PUBKEY=no\nVITE_PROGRAM_PUBKEY=yes\nVITE_PROGRAM_PUBKEY=late"),
        "yes"
    );
}

#[test]
fn reads_as_lines_are_split() {
    assert_eq!(program_pubkey_of("VITE_PROGRAM_PUBKEY=ab\r\nX=1"), "ab");
    assert_eq!(program_pubkey_of("VITE_PROGRAM_PUBKEY=\r\nX=1"), "");
    assert_eq!(program_pubkey_of("VITE_PROGRAM_PUBKEY=ab\r"), "ab\r");
    assert_eq!(program_pubkey_of("VITE_PROGRAM_PUBKEY=a\rb\r\r\n"), "a\rb\r");
    assert_eq!(program_pubkey_of("VITE_PROGRAM_PUBKEY=a b = c\n"), "a b = c");
    for content in [
        "VITE_PROGRAM_PUBKEY=ab\r\nX=1",
        "VITE_PROGRAM_PUBKEY=ab\r",
        "VITE_PROGRAM_PUBKEY=a\rb\r\r\n",
        "\r\nVITE_PROGRAM_PUBKEY=\r\n",
        "VITE_PROGRAM_PUBKEY\r\nVITE_PROGRAM_PUBKEY=\r",
        "A\n\nVITE_PROGRAM_PUBKEY=é\u{1F600}\n",
    ] {
        let expected = content
            .lines()
            .find_map(|line| line.strip_prefix("VITE_PROGRAM_PUBKEY="))
            .unwrap_or("");
        assert_eq!(program_pubkey_of(content), expected);
    }
}

#[test]
fn what_is_written_is_read_back() {
    for content in [PRISTINE, WRITTEN, "", "A=1", "VITE_PROGRAM_PUBKEY=zz\r\nVITE_PROGRAM_PUBKEY=yy"] {
        let updated = build_frontend(content, Some("http://new:9090"), "0a1b", "cd", "TESTNET");
        assert_eq!(program_pubkey_of(&updated), "0a1b");
        let again = build_frontend(&updated, Some("http://new:9090"), "0a1b", "cd", "TESTNET");
        assert_eq!(program_pubkey_of(&again), "0a1b");
    }
}

#[test]
fn text_beyond_ascii_is_kept() {
    let updated = build_frontend("# ключ é\nVITE_NETWORK=\n", None, "p", "w", "сеть");
    assert_eq!(
        updated,
        "# ключ é\nVITE_NETWORK=сеть\nVITE_PROGRAM_PUBKEY=p\nVITE_WALL_ACCOUNT_PUBKEY=w\n"
    );
}

#[test]
fn each_key_is_written_once() {
    let keys = [
        "VITE_PROGRAM_PUBKEY=",
        "VITE_WALL_ACCOUNT_PUBKEY=",
        "VITE_NETWORK=",
        "VITE_RPC_URL=",
    ];
    for content in ["", "A=1", PRISTINE, WRITTEN, "VITE_NETWORK=x\r\n# VITE_NETWORK=\n"] {
        let mut text = content.to_string();
        for _ in 0..3 {
            text = build_frontend(&text, Some("http://n"), "p", "w", "net");
            for key in keys {
                assert_eq!(text.lines().filter(|line| line.starts_with(key)).count(), 1);
            }
        }
    }
    let doubled = build_frontend("VITE_NETWORK=a\nVITE_NETWORK=b\n", None, "p", "w", "net");
    assert_eq!(doubled.lines().filter(|line| line.starts_with("VITE_NETWORK=")).count(), 2);
}
