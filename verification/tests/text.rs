use asimov_dataset_cli::path::eq_ignoring_case;
use asimov_dataset_cli::prepare::{InputFormat, OutputFiles, RDFBDataset, UNKNOWN_FORMAT};
use asimov_dataset_cli::path::same_bytes;
use asimov_dataset_cli::publish::{
    account_last_label, choose_network, has_prepared_extension, names_prepared, rdf_insert_args,
    split_prepared_files, Network, NetworkError, ARGS_VERSION, ENCODING_RDFB, RDF_INSERT_DEPOSIT,
    RDF_INSERT_METHOD, RDF_INSERT_TGAS,
};
use asimov_dataset_cli::ui::format::push_padded;
use asimov_dataset_cli::ui::format_number;

#[test]
fn format_number_groups_by_three() {
    assert_eq!("123", format_number(123).as_str());
    assert_eq!("1_234", format_number(1234).as_str());
    assert_eq!("123_456", format_number(123456).as_str());
    assert_eq!("1_234_567", format_number(1234567).as_str());
}

#[test]
fn format_number_edges() {
    assert_eq!("0", format_number(0).as_str());
    assert_eq!("9", format_number(9).as_str());
    assert_eq!("999", format_number(999).as_str());
    assert_eq!("1_000", format_number(1000).as_str());
    assert_eq!("1_000_000", format_number(1_000_000).as_str());
    assert_eq!("10_000_007", format_number(10_000_007).as_str());
    assert_eq!("18_446_744_073_709_551_615", format_number(18_446_744_073_709_551_615).as_str());
}

#[test]
fn padded_numbers() {
    let mut out = String::from("x");
    push_padded(&mut out, 7, 3);
    assert_eq!(out, "x007");
    let mut out = String::new();
    push_padded(&mut out, 1234, 3);
    assert_eq!(out, "1234");
    let mut out = String::new();
    push_padded(&mut out, 0, 0);
    assert_eq!(out, "0");
    let mut out = String::new();
    push_padded(&mut out, 0, 4);
    assert_eq!(out, "0000");
    let mut out = String::new();
    push_padded(&mut out, 120, 0);
    assert_eq!(out, "120");
}

#[test]
fn output_files_are_numbered_from_one() {
    let mut files = OutputFiles::new();
    assert_eq!(files.file_idx, 1);
    assert_eq!(files.file_name(), "prepared.000001.rdfb");
    let dataset = RDFBDataset { data: vec![1, 2, 3], statement_count: 2, skipped_statements: 5 };
    let progress = files.record(String::from("out/prepared.000001.rdfb"), &dataset);
    assert_eq!(progress.filename, "out/prepared.000001.rdfb");
    assert_eq!(progress.bytes, 3);
    assert_eq!(progress.statement_count, 2);
    assert_eq!(progress.skipped_statements, 5);
    assert_eq!(files.file_idx, 2);
    assert_eq!(files.file_name(), "prepared.000002.rdfb");
}

#[test]
fn output_file_names_grow_past_six_digits() {
    assert_eq!(OutputFiles { file_idx: 42 }.file_name(), "prepared.000042.rdfb");
    assert_eq!(OutputFiles { file_idx: 999_999 }.file_name(), "prepared.999999.rdfb");
    assert_eq!(OutputFiles { file_idx: 1_000_000 }.file_name(), "prepared.1000000.rdfb");
    assert_eq!(OutputFiles { file_idx: 0 }.file_name(), "prepared.000000.rdfb");
}

#[test]
fn extension_is_that_of_the_file_name() {
    assert_eq!(InputFormat::for_path("data.ttl"), Some(InputFormat::Turtle));
    assert_eq!(InputFormat::for_path("dir.nt/data"), None);
    assert_eq!(InputFormat::for_path("dir/archive.tar.nq"), Some(InputFormat::NQuads));
    assert_eq!(InputFormat::for_path(".nt"), None);
    assert_eq!(InputFormat::for_path("dir/.hidden.nt"), Some(InputFormat::NTriples));
    assert_eq!(InputFormat::for_path("data.nt."), None);
    assert_eq!(InputFormat::for_path(""), None);
    assert_eq!(InputFormat::for_path("dir/data.nq/"), Some(InputFormat::NQuads));
    assert_eq!(InputFormat::for_path("dir/data.nq/.."), None);
    assert_eq!(InputFormat::for_path(".."), None);
}

#[test]
fn known_extensions() {
    assert_eq!(InputFormat::from_extension("n3"), Some(InputFormat::N3));
    assert_eq!(InputFormat::from_extension("nt"), Some(InputFormat::NTriples));
    assert_eq!(InputFormat::from_extension("nq"), Some(InputFormat::NQuads));
    assert_eq!(InputFormat::from_extension("rdf"), Some(InputFormat::RdfXml));
    assert_eq!(InputFormat::from_extension("ttl"), Some(InputFormat::Turtle));
    assert_eq!(InputFormat::from_extension("trig"), Some(InputFormat::TriG));
    assert_eq!(InputFormat::from_extension("TTL"), Some(InputFormat::Turtle));
    assert_eq!(InputFormat::from_extension("TriG"), Some(InputFormat::TriG));
    for format in [
        InputFormat::N3,
        InputFormat::NTriples,
        InputFormat::NQuads,
        InputFormat::RdfXml,
        InputFormat::Turtle,
        InputFormat::TriG,
    ] {
        let name = String::from_utf8(format.extension()).unwrap();
        assert_eq!(InputFormat::from_extension(&name), Some(format));
    }
}

#[test]
fn unknown_extensions() {
    for name in ["", "txt", "xml", "json", "jsonld", "rdfb", "n", "ttl ", "nt3", "tri", "n\u{33}\u{301}"] {
        assert_eq!(InputFormat::from_extension(name), None, "{name:?}");
    }
    assert_eq!(UNKNOWN_FORMAT, "Unknown file format");
}

#[test]
fn format_of_a_path() {
    assert_eq!(InputFormat::for_path("data/one.nt"), Some(InputFormat::NTriples));
    assert_eq!(InputFormat::for_path("two.TTL"), Some(InputFormat::Turtle));
    assert_eq!(InputFormat::for_path("three.tar.trig"), Some(InputFormat::TriG));
    assert_eq!(InputFormat::for_path("nt"), None);
    assert_eq!(InputFormat::for_path("data.nt/readme"), None);
    assert_eq!(InputFormat::for_path("prepared.000001.rdfb"), None);
    assert_eq!(InputFormat::for_path(".ttl"), None);
}

#[test]
fn case_of_letters_is_ignored() {
    assert!(eq_ignoring_case(b"TrIg", b"trig"));
    assert!(eq_ignoring_case(b"", b""));
    assert!(!eq_ignoring_case(b"trig", b"tri"));
    assert!(!eq_ignoring_case(b"n3", b"nt"));
    // '@' and '`' stand next to the letters and differ by 32 too.
    assert!(!eq_ignoring_case(b"@", b"`"));
    assert!(!eq_ignoring_case(b"[", b"{"));
    assert!(eq_ignoring_case(b"Z", b"z"));
    assert!(eq_ignoring_case(b"A", b"a"));
}

#[test]
fn only_the_extension_rdfb_names_a_prepared_dataset() {
    assert!(names_prepared(Some("rdfb")));
    assert!(!names_prepared(None));
    assert!(!names_prepared(Some("")));
    assert!(!names_prepared(Some("RDFB")));
    assert!(!names_prepared(Some("Rdfb")));
    assert!(!names_prepared(Some("rdf")));
    assert!(!names_prepared(Some("rdfbb")));
    assert!(!names_prepared(Some(".rdfb")));
    assert!(!names_prepared(Some("ttl")));
}

#[test]
fn prepared_files_are_told_by_their_extension() {
    assert!(has_prepared_extension("prepared.000001.rdfb"));
    assert!(has_prepared_extension("dir/x.rdfb"));
    assert!(!has_prepared_extension("x.RDFB"));
    assert!(!has_prepared_extension("x.rdf"));
    assert!(!has_prepared_extension("rdfb"));
    assert!(!has_prepared_extension(".rdfb"));
    assert!(!has_prepared_extension("x.rdfb.ttl"));
}

#[test]
fn split_keeps_the_order_of_each_part() {
    let files: Vec<String> =
        ["a.ttl", "b.rdfb", "c.nt", "d.rdfb", "e", "f.rdfb"].iter().map(|f| f.to_string()).collect();
    let (prepared, unprepared) = split_prepared_files(&files);
    assert_eq!(prepared, vec!["b.rdfb", "d.rdfb", "f.rdfb"]);
    assert_eq!(unprepared, vec!["a.ttl", "c.nt", "e"]);
    let (prepared, unprepared) = split_prepared_files(&[]);
    assert!(prepared.is_empty() && unprepared.is_empty());
}

#[test]
fn insert_args_layout() {
    assert_eq!(rdf_insert_args("", &[9, 8, 7]).unwrap(), vec![1, 0, 0, 0, 0, 1, 9, 8, 7]);
    assert_eq!(
        rdf_insert_args("ab", &[]).unwrap(),
        vec![ARGS_VERSION, 2, 0, 0, 0, b'a', b'b', ENCODING_RDFB]
    );
    // The length counts bytes, not characters.
    assert_eq!(
        rdf_insert_args("\u{e9}", &[5]).unwrap(),
        vec![1, 2, 0, 0, 0, 0xc3, 0xa9, 1, 5]
    );
    let name = "n".repeat(0x1_02_03);
    let args = rdf_insert_args(&name, &[4]).unwrap();
    assert_eq!(args[..5], [1, 0x03, 0x02, 0x01, 0x00]);
    assert_eq!(args.len(), 1 + 4 + 0x1_02_03 + 1 + 1);
    assert_eq!(args[args.len() - 2..], [1, 4]);
}

#[test]
fn insert_call_constants() {
    assert_eq!(RDF_INSERT_METHOD, "rdf_insert");
    assert_eq!(RDF_INSERT_TGAS, 300);
    assert_eq!(RDF_INSERT_DEPOSIT, 0);
    assert_eq!(ARGS_VERSION, 1);
    assert_eq!(ENCODING_RDFB, 1);
}

#[test]
fn named_network_is_chosen() {
    assert_eq!(choose_network(Some("mainnet"), "repo.testnet"), Ok(Network::Mainnet));
    assert_eq!(choose_network(Some("testnet"), "repo.near"), Ok(Network::Testnet));
    assert_eq!(choose_network(Some("Mainnet"), "repo.near"), Err(NetworkError::UnknownName));
    assert_eq!(choose_network(Some(""), "repo.near"), Err(NetworkError::UnknownName));
    assert_eq!(choose_network(Some("near"), "repo.near"), Err(NetworkError::UnknownName));
    assert_eq!(choose_network(Some("testnet2"), "repo.near"), Err(NetworkError::UnknownName));
}

#[test]
fn network_is_inferred_from_the_account() {
    assert_eq!(choose_network(None, "repo.near"), Ok(Network::Mainnet));
    assert_eq!(choose_network(None, "a.b.repo.testnet"), Ok(Network::Testnet));
    assert_eq!(choose_network(None, "near"), Ok(Network::Mainnet));
    assert_eq!(choose_network(None, "testnet"), Ok(Network::Testnet));
    assert_eq!(choose_network(None, "repo.mainnet"), Err(NetworkError::CannotInfer));
    assert_eq!(choose_network(None, "repo.near."), Err(NetworkError::CannotInfer));
    assert_eq!(choose_network(None, "reponear"), Err(NetworkError::CannotInfer));
    assert_eq!(choose_network(None, "repo.NEAR"), Err(NetworkError::CannotInfer));
    assert_eq!(choose_network(None, ""), Err(NetworkError::CannotInfer));
}

#[test]
fn last_label_of_an_account() {
    assert_eq!(account_last_label(b"a.b.c"), b"c");
    assert_eq!(account_last_label(b"abc"), b"abc");
    assert_eq!(account_last_label(b"abc."), b"");
    assert_eq!(account_last_label(b".abc"), b"abc");
    assert_eq!(account_last_label(b""), b"");
    assert_eq!(account_last_label(b"."), b"");
}

#[test]
fn bytes_are_compared_one_by_one() {
    assert!(same_bytes(b"near", b"near"));
    assert!(same_bytes(b"", b""));
    assert!(!same_bytes(b"near", b"neat"));
    assert!(!same_bytes(b"near", b"Near"));
    assert!(!same_bytes(b"near", b"nea"));
    assert!(!same_bytes(b"", b"n"));
}
