use nordvpn_rs::filters::{decimal, parse_u16};
use nordvpn_rs::helper::CurlClient;
use nordvpn_rs::text::{chars_of, lines_exec, remove_all_exec, split_exec, trim_string};

fn lines(s: &str) -> Vec<String> {
    lines_exec(&chars_of(s)).into_iter().map(|l| l.into_iter().collect()).collect()
}

#[test]
fn lines_like_std() {
    for s in ["", "a", "a\n", "a\nb", "a\r\nb\r\n", "\n\n", "x\ry\n", "\r\n", "a\n\nb"] {
        let expected: Vec<String> = s.lines().map(|l| l.to_string()).collect();
        assert_eq!(lines(s), expected, "input {:?}", s);
    }
}

#[test]
fn remove_all_like_replace() {
    for (s, p) in [("Server: Server: x", "Server: "), ("aabb", "ab"), ("((x)!)!", ")!"), ("", "a"), ("abc", "abcd")] {
        let r: String = remove_all_exec(&chars_of(s), &chars_of(p)).into_iter().collect();
        assert_eq!(r, s.replace(p, ""), "input {:?} {:?}", s, p);
    }
}

#[test]
fn split_like_std() {
    for (s, p) in [("a b c", " "), ("  x ", " "), ("", " "), ("k:1:2", ":"), ("no", ":")] {
        let r: Vec<String> = split_exec(&chars_of(s), &chars_of(p)).into_iter().map(|v| v.into_iter().collect()).collect();
        let e: Vec<String> = s.split(p).map(|x| x.to_string()).collect();
        assert_eq!(r, e, "input {:?} {:?}", s, p);
    }
}

#[test]
fn trim_like_std() {
    for s in ["", "  ", " a ", "\u{a0}b\u{2028}", "\u{200b}c", "x\t\n"] {
        assert_eq!(trim_string(s), s.trim(), "input {:?}", s);
    }
}

#[test]
fn parse_u16_like_std() {
    for s in ["0", "65535", "65536", "+7", "+", "-1", "", "12a", "007", " 1", "999999999999"] {
        assert_eq!(parse_u16(s), s.parse::<u16>().ok(), "input {:?}", s);
    }
}

#[test]
fn decimal_like_std_and_reads_back() {
    for n in [0u16, 7, 10, 99, 100, 12345, 65535] {
        assert_eq!(decimal(n), n.to_string());
        assert_eq!(parse_u16(&decimal(n)), Some(n));
    }
}

#[test]
fn curl_client() {
    let c = CurlClient::new_with_path_discovery("/usr/bin/curl\n");
    assert_eq!(c.bin_path(), "/usr/bin/curl");
    assert_eq!(c.get_command("https://api.ipify.org"), vec!["/usr/bin/curl", "https://api.ipify.org"]);
    assert_eq!(CurlClient::new("x".to_string()).bin_path(), "x");
}
