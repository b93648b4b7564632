use symsrv::destination::resolve;
use symsrv::locator::{parse, parse_descriptor, parse_servers, Locator, ParseError};
use symsrv::manifest::{decode, DecodeError, Target};
use symsrv::text::split_fields;

fn loc(local: &str, remote: &str) -> Locator {
    Locator { local_root: local.to_string(), remote_root: remote.to_string() }
}

#[test]
fn parse_srv_descriptor() {
    assert_eq!(
        parse("SRV*C:\\sym*https://example.com"),
        Ok(loc("C:\\sym", "https://example.com"))
    );
}

#[test]
fn parse_rejects_bad_token_and_count() {
    assert_eq!(parse("BAD*a*b"), Err(ParseError::InvalidForm));
    assert_eq!(parse("SRV*a"), Err(ParseError::InvalidForm));
    assert_eq!(parse("SRV*a*b*c"), Err(ParseError::InvalidForm));
    assert_eq!(parse("srv*a*b"), Err(ParseError::InvalidForm));
}

#[test]
fn parse_rejects_empty() {
    assert_eq!(parse(""), Err(ParseError::InvalidForm));
}

#[test]
fn parse_keeps_empty_fields() {
    assert_eq!(parse("SRV**"), Ok(loc("", "")));
}

#[test]
fn descriptor_rejects_two_servers() {
    assert_eq!(parse_descriptor("SRV*a*b;SRV*c*d"), Err(ParseError::UnsupportedMultiServer));
}

#[test]
fn descriptor_accepts_one_server() {
    assert_eq!(parse_descriptor("SRV*/tmp/sym*http://host/s"), Ok(loc("/tmp/sym", "http://host/s")));
}

#[test]
fn descriptor_reports_malformed_segment_first() {
    assert_eq!(parse_descriptor("SRV*a*b;BAD"), Err(ParseError::InvalidForm));
    assert_eq!(parse_descriptor("SRV*a*b;"), Err(ParseError::InvalidForm));
}

#[test]
fn servers_parsed_in_order() {
    assert_eq!(
        parse_servers("SRV*a*b;SRV*c*d".to_string()),
        Ok(vec![loc("a", "b"), loc("c", "d")])
    );
    assert_eq!(parse_servers("SRV*a*b;x".to_string()), Err(ParseError::InvalidForm));
}

#[test]
fn split_matches_std() {
    for (s, sep) in [("a,b,,c", ','), ("", ','), (",", ','), ("abc", ','), ("é*ü*", '*')] {
        let expected: Vec<String> = s.split(sep).map(|x| x.to_string()).collect();
        assert_eq!(split_fields(s, sep), expected);
    }
}

#[test]
fn decode_three_fields() {
    assert_eq!(
        decode("foo.pdb,0123ABCD,1"),
        Ok(Target { component: "foo.pdb".to_string(), hash: "0123ABCD".to_string() })
    );
}

#[test]
fn decode_rejects_two_fields() {
    assert_eq!(
        decode("foo.pdb,0123ABCD"),
        Err(DecodeError::MalformedLine("foo.pdb,0123ABCD".to_string()))
    );
    assert_eq!(decode("a,b,c,d"), Err(DecodeError::MalformedLine("a,b,c,d".to_string())));
    assert_eq!(decode(""), Err(DecodeError::MalformedLine(String::new())));
}

#[test]
fn resolve_paths() {
    let t = Target { component: "a.pdb".to_string(), hash: "H".to_string() };
    let d = resolve(&loc("X", "Y"), &t);
    assert_eq!(d.local_dir, "X/a.pdb/H");
    assert_eq!(d.local_file, "X/a.pdb/H/a.pdb");
    assert_eq!(d.remote_file, "Y/a.pdb/H/a.pdb");
    assert_eq!(resolve(&loc("X", "Y"), &t), d);
}
