use flang::errors::{Erroneous, ErroneousExt, Error, ErrorKind, FlangStage};
use flang::number::whole;
use flang::project::source::SourceMap;
use flang::project::{parse_number, write_number, Package, Semver, SemverMode, SemverPackage};
use flang::sitter::op::{get_dyadic, get_mondaic, Dyadic, Mondaic};
use flang::sitter::{ParseContext, Span};

#[test]
fn stages_have_names() {
    assert_eq!(FlangStage::PreProcessing.to_string(), "Pre-Processing");
    assert_eq!(FlangStage::Runtime.to_string(), "Runtime");
}

#[test]
fn error_is_written_on_one_line() {
    let e = Error::anonymous(ErrorKind::Other, "it \"broke\"".to_string());
    assert_eq!(e.to_string(), "Error in Runtime: \"it \\\"broke\\\"\"");
    let r: Result<(), Error> = Err(e);
    let e = r.hint("try again").code("E1").fatal(true).unwrap_err();
    assert_eq!(e.to_string(), "E1 Error in Runtime: \"it \\\"broke\\\"\"try again\n");
    assert!(e.fatal);
    assert_eq!(e.hint, Some("try again".to_string()));
    assert_eq!(e.code, Some("E1".to_string()));
    assert_eq!(e.bounds, (0, 0));
    assert_eq!(e.source, None);
}

#[test]
fn additions_leave_a_success_alone() {
    let r: Result<u8, Error> = Ok(7);
    assert_eq!(r.hint("h").code("c").fatal(true).unwrap(), 7);
}

#[test]
fn messages_become_runtime_errors() {
    let span = Span {
        byte_bounds: (2, 5),
        start: (0, 2),
        end: (0, 5),
        text: "abc".to_string(),
        source_file: "f.fl".to_string(),
    };
    let r: Result<u8, String> = Err("bad".to_string());
    let e = r.rt(span.clone()).unwrap_err();
    assert_eq!(e.kind, ErrorKind::Other);
    assert_eq!(e.error, "bad");
    assert_eq!(e.bounds, (2, 5));
    assert_eq!(e.source, Some("f.fl".to_string()));
    assert!(!e.fatal);
    let r: Result<u8, String> = Err("worse".to_string());
    let e = r.rta().unwrap_err();
    assert_eq!(e.error, "worse");
    assert_eq!(e.bounds, (0, 0));
    assert_eq!(e.source, None);
    let r: Result<u8, String> = Ok(1);
    assert_eq!(r.rt(span.clone()).unwrap(), 1);
    let r: Result<u8, String> = Ok(2);
    assert_eq!(r.rta().unwrap(), 2);
    let e = span.as_error("Parsing error");
    assert_eq!(e.error, "Parsing error");
    assert_eq!(e.bounds, (2, 5));
    assert!(matches!(e.stage, FlangStage::Runtime));
}

#[test]
fn numbers_of_versions_are_read() {
    let read = |s: &str| {
        let chars: Vec<char> = s.chars().collect();
        parse_number(&chars, 0, chars.len())
    };
    assert_eq!(read("0"), Some(0));
    assert_eq!(read("12"), Some(12));
    assert_eq!(read("+12"), Some(12));
    assert_eq!(read("007"), Some(7));
    assert_eq!(read("65535"), Some(65535));
    assert_eq!(read("65536"), None);
    assert_eq!(read("99999999999999999999"), None);
    assert_eq!(read(""), None);
    assert_eq!(read("+"), None);
    assert_eq!(read("-1"), None);
    assert_eq!(read("1a"), None);
    assert_eq!(read(" 1"), None);
    let chars: Vec<char> = "a12b".chars().collect();
    assert_eq!(parse_number(&chars, 1, 3), Some(12));
    for s in ["0", "12", "+12", "007", "65535", "65536", "", "+", "-1", "1a"] {
        assert_eq!(read(s), s.parse::<u16>().ok(), "{}", s);
    }
}

#[test]
fn numbers_are_written_in_decimal() {
    for n in [0u16, 1, 9, 10, 11, 99, 100, 101, 1000, 12345, 65535] {
        assert_eq!(write_number(n), n.to_string());
    }
}

#[test]
fn versions_are_read_and_written() {
    let v = Semver::from_str("1.2.3").unwrap();
    assert_eq!(v.numerals(), (1, 2, 3));
    assert_eq!(v.to_string(), "1.2.3");
    let v = Semver::from_str("10.0.65535-beta-2.x").unwrap();
    assert_eq!(v.numerals(), (10, 0, 65535));
    assert_eq!(v.to_string(), "10.0.65535-beta-2.x");
    let v = Semver::from_str("1.2.3-").unwrap();
    assert_eq!(v.to_string(), "1.2.3-");
    assert_eq!(v.clone().to_string(), "1.2.3-");
}

#[test]
fn malformed_versions_are_refused() {
    for s in ["1.x.3", "1..3", "", "a", "1.2.3.x", "1.2.70000", "-1.2.3", ".1.2"] {
        let e = Semver::from_str(s).unwrap_err();
        assert_eq!(e.error, "Invalid digit in semver", "{}", s);
        assert_eq!(e.kind, ErrorKind::Other);
    }
    for s in ["1", "1.2", "1.2.3.4", "1.2-3"] {
        let e = Semver::from_str(s).unwrap_err();
        assert_eq!(e.error, "Expected three numbers in semver", "{}", s);
    }
}

#[test]
fn modes_are_read_and_written() {
    assert!(matches!(SemverMode::from_str("^"), Ok(SemverMode::UpdateFeature)));
    assert!(matches!(SemverMode::from_str("~"), Ok(SemverMode::UpdatePatch)));
    assert!(matches!(SemverMode::from_str("="), Ok(SemverMode::Strict)));
    let e = SemverMode::from_str("*").unwrap_err();
    assert_eq!(e.error, "Unknown semver match mode '*'");
    assert!(SemverMode::from_str("").is_err());
    assert!(SemverMode::from_str("^^").is_err());
    assert_eq!(SemverMode::Strict.to_string(), "=");
    assert_eq!(SemverMode::UpdatePatch.to_string(), "~");
    assert_eq!(SemverMode::UpdateFeature.to_string(), "^");
    assert_eq!(SemverMode::UpdateMajor.to_string(), "*");
}

#[test]
fn dependencies_are_written() {
    let p = SemverPackage::new("tools".to_string(), Semver::from_str("1.2.3-rc").unwrap(), SemverMode::UpdateFeature);
    assert_eq!(p.name(), "tools");
    assert_eq!(p.semver().0.to_string(), "1.2.3-rc");
    assert!(matches!(p.semver().1, SemverMode::UpdateFeature));
    assert_eq!(p.to_string(), "tools@^1.2.3-rc");
    assert_eq!(p.clone().to_string(), "tools@^1.2.3-rc");
}

#[test]
fn dependencies_are_read_with_a_mode_of_two_bytes() {
    let e = SemverPackage::from_str("tools").unwrap_err();
    assert_eq!(e.error, "No version provided for package 'tools'");
    let e = SemverPackage::from_str("tools@^").unwrap_err();
    assert_eq!(e.error, "No version provided for package 'tools@^'");
    let e = SemverPackage::from_str("tools@^1.2.3").unwrap_err();
    assert_eq!(e.error, "Invalid digit in semver");
    let e = SemverPackage::from_str("tools@^^1.2.3").unwrap_err();
    assert_eq!(e.error, "Unknown semver match mode '^^'");
    let e = SemverPackage::from_str("tools@^ 1.2").unwrap_err();
    assert_eq!(e.error, "Expected three numbers in semver");
    let e = SemverPackage::from_str("tools@\u{e9}1.2.3").unwrap_err();
    assert_eq!(e.error, "Unknown semver match mode '\u{e9}'");
    let e = SemverPackage::from_str("tools@^\u{e9}1.2.3").unwrap_err();
    assert_eq!(e.error, "No version provided for package 'tools@^\u{e9}1.2.3'");
    let e = SemverPackage::from_str("tools@").unwrap_err();
    assert_eq!(e.error, "No version provided for package 'tools@'");
    let e = SemverPackage::from_str("tools@^~").unwrap_err();
    assert_eq!(e.error, "Invalid digit in semver");
}

fn package() -> Package {
    Package {
        name: "app".to_string(),
        version: "1.0.0".to_string(),
        dependencies: vec![
            SemverPackage::new("tools".to_string(), Semver::from_str("1.0.0").unwrap(), SemverMode::Strict),
            SemverPackage::new("other".to_string(), Semver::from_str("2.0.0").unwrap(), SemverMode::UpdatePatch),
        ],
        main: "src/main.fl".to_string(),
        disk_path: "/work/app".to_string(),
    }
}

#[test]
fn package_knows_its_folder_and_dependencies() {
    let p = package();
    assert_eq!(p.root_folder(), Some("/work/app/src".to_string()));
    assert_eq!(p.dependency("tools"), Some(0));
    assert_eq!(p.dependency("other"), Some(1));
    assert_eq!(p.dependency("absent"), None);
    let q = p.clone();
    assert_eq!(q.name, "app");
    assert_eq!(q.dependencies.len(), 2);
    assert_eq!(q.dependencies[1].to_string(), "other@~2.0.0");
}

#[test]
fn modules_are_named_by_their_way_up() {
    let p = package();
    assert_eq!(p.child("/work/app/src/util.fl".to_string()).unwrap(), "app::util");
    assert_eq!(p.child("/work/app/src/main.fl".to_string()).unwrap(), "app::main");
    assert_eq!(p.child("/work/app/src/a/b/c.fl".to_string()).unwrap(), "app::a::src::c");
    let e = p.child("/elsewhere/x.fl".to_string()).unwrap_err();
    assert_eq!(e.error, "Couldn't find child '/elsewhere/x.fl'");
    assert!(p.child("/".to_string()).is_err());
}

#[test]
fn module_paths_lead_to_packages() {
    let p = package();
    let (found, folders) =
        p.dependent_package(vec!["app".to_string(), "a".to_string(), "b".to_string()], None).unwrap();
    assert_eq!(found.name, "a::b");
    assert_eq!(found.main, "/work/app/src/a/b.fl");
    assert_eq!(found.disk_path, "/work/app");
    assert_eq!(folders, vec!["/work/app/src".to_string(), "/work/app/src/a".to_string()]);

    let (found, folders) = p.dependent_package(vec!["app".to_string(), "m".to_string()], None).unwrap();
    assert_eq!(found.name, "m");
    assert_eq!(found.main, "/work/app/src/m.fl");
    assert_eq!(folders, vec!["/work/app/src".to_string()]);

    let dependency = Package {
        name: "tools".to_string(),
        version: "1.0.0".to_string(),
        dependencies: vec![],
        main: "lib.fl".to_string(),
        disk_path: "/deps/tools".to_string(),
    };
    let (found, folders) = p
        .dependent_package(vec!["tools".to_string(), "x".to_string()], Some(dependency))
        .unwrap();
    assert_eq!(found.main, "/deps/tools/x.fl");
    assert_eq!(found.version, "1.0.0");
    assert_eq!(folders, vec!["/deps/tools".to_string()]);
}

#[test]
fn module_paths_that_lead_nowhere_are_refused() {
    let p = package();
    let e = p.dependent_package(vec!["app".to_string()], None).unwrap_err();
    assert_eq!(e.error, "Module path is too short");
    assert!(p.dependent_package(vec![], None).is_err());
    let e = p.dependent_package(vec!["absent".to_string(), "x".to_string()], None).unwrap_err();
    assert_eq!(e.error, "No package named 'absent' in manifest");
    let e = p.dependent_package(vec!["tools".to_string(), "x".to_string()], None).unwrap_err();
    assert_eq!(e.error, "No manifest found for package 'tools'. Might not be installed.");
}

#[test]
fn sources_are_kept_by_path() {
    let mut m = SourceMap::new();
    assert!(m.get_source("a.fl".to_string()).is_none());
    let a = m.add_source("a.fl".to_string(), "let a = 1;".to_string());
    assert_eq!(*a, "let a = 1;");
    m.add_source("b.fl".to_string(), "b".to_string());
    assert_eq!(*m.get_source("a.fl".to_string()).unwrap(), "let a = 1;");
    m.add_source("a.fl".to_string(), "changed".to_string());
    assert_eq!(*m.get_source("a.fl".to_string()).unwrap(), "changed");
    assert_eq!(*m.get_source("b.fl".to_string()).unwrap(), "b");
}

#[test]
fn spans_take_their_text_from_the_source() {
    let mut m = SourceMap::new();
    m.add_source("a.fl".to_string(), "let \u{e9}t\u{e9} = 1;".to_string());
    let pc = ParseContext::new("a.fl".to_string());
    assert_eq!(pc.source_file(), "a.fl");
    let s = pc.span((4, 9), (0, 4), (0, 9), &m);
    assert_eq!(s.text, "\u{e9}t\u{e9}");
    assert_eq!(s.byte_bounds, (4, 9));
    assert_eq!(s.start, (0, 4));
    assert_eq!(s.end, (0, 9));
    assert_eq!(s.source_file, "a.fl");
    assert_eq!(pc.span((5, 9), (0, 5), (0, 9), &m).text, "\u{fffd}t\u{e9}");
    assert_eq!(pc.span((0, 0), (0, 0), (0, 0), &m).text, "");
    assert_eq!(pc.span((0, 99), (0, 0), (0, 99), &m).text, "[Anonymous]");
    assert_eq!(pc.span((3, 2), (0, 3), (0, 2), &m).text, "[Anonymous]");
    let other = ParseContext::new("b.fl".to_string());
    assert_eq!(other.span((0, 3), (0, 0), (0, 3), &m).text, "[Anonymous]");
    let anonymous = Span::anonymous();
    assert_eq!(anonymous.byte_bounds, (0, 0));
    assert_eq!(anonymous.text, "");
}

#[test]
fn operators_are_read_from_their_tokens() {
    assert_eq!(get_dyadic("+"), Some(Dyadic::Add));
    assert_eq!(get_dyadic("-"), Some(Dyadic::Subtract));
    assert_eq!(get_dyadic("*"), Some(Dyadic::Multiply));
    assert_eq!(get_dyadic("/"), Some(Dyadic::Divide));
    assert_eq!(get_dyadic("%"), None);
    assert_eq!(get_dyadic("++"), None);
    assert_eq!(get_mondaic("-"), Some(Mondaic::Negate));
    assert_eq!(get_mondaic("!"), Some(Mondaic::Not));
    assert_eq!(get_mondaic("+"), None);
    assert_eq!(Dyadic::Add.trait_name(), "Add");
    assert_eq!(Dyadic::Add.method_name(), "add");
    for (verb, name) in [
        (Dyadic::Subtract, "Subtract"),
        (Dyadic::Multiply, "Multiply"),
        (Dyadic::Divide, "Divide"),
    ] {
        assert_eq!(verb.trait_name(), name);
        assert_eq!(verb.method_name(), name.to_lowercase());
    }
    assert_eq!(Mondaic::Negate.trait_name(), "Negate");
    assert_eq!(Mondaic::Not.method_name(), "not");
}

#[test]
fn whole_numbers_are_read_from_bits() {
    assert_eq!(whole(1.0f64.to_bits()), Some(1));
    assert_eq!(whole(2.0f64.to_bits()), Some(2));
    assert_eq!(whole(3.0f64.to_bits()), Some(3));
    assert_eq!(whole(1234567.0f64.to_bits()), Some(1234567));
    assert_eq!(whole(9007199254740991.0f64.to_bits()), Some(9007199254740991));
    assert_eq!(whole(4503599627370496.0f64.to_bits()), Some(4503599627370496));
    assert_eq!(whole(9007199254740992.0f64.to_bits()), None);
    assert_eq!(whole(0.0f64.to_bits()), None);
    assert_eq!(whole((-0.0f64).to_bits()), None);
    assert_eq!(whole(0.5f64.to_bits()), None);
    assert_eq!(whole(1.5f64.to_bits()), None);
    assert_eq!(whole((-1.0f64).to_bits()), None);
    assert_eq!(whole(f64::NAN.to_bits()), None);
    assert_eq!(whole(f64::INFINITY.to_bits()), None);
    assert_eq!(whole(f64::MIN_POSITIVE.to_bits()), None);
    assert_eq!(whole(5e-324f64.to_bits()), None);
    for i in 1..2000u64 {
        assert_eq!(whole((i as f64).to_bits()), Some(i));
        assert_eq!(whole((i as f64 + 0.25).to_bits()), None);
    }
}
