use asimov_dataset_cli::prepare::{
    prepare_datasets, MicroBatcher, Packer, PackerStep, StatementBatch, BATCH_CHANNEL_CAPACITY,
    BATCH_SIZE, DATASET_CHANNEL_CAPACITY, PACKER_COUNT,
};
use asimov_dataset_cli::search::MAX_FILE_SIZE;
use asimov_dataset_cli::serialize::{serialize_statements, SerializeError};
use oxrdf::{GraphName, Literal, NamedNode, Quad, Subject, Term, Triple};
use std::collections::VecDeque;

fn quad(subject: usize, object: &str) -> Quad {
    Quad::new(
        NamedNode::new_unchecked(format!("http://example.org/s/{subject}")),
        NamedNode::new_unchecked("http://example.org/p"),
        Literal::new_simple_literal(object),
        GraphName::DefaultGraph,
    )
}

fn indexed(count: usize) -> Vec<(usize, Quad)> {
    (0..count).map(|i| (i, quad(i, &format!("o{i}")))).collect()
}

/// Text that does not compress: letters and digits drawn by a fixed rule.
fn noise(len: usize) -> String {
    let mut seed: u64 = 0x2545_f491_4f6c_dd1d;
    let mut out = String::with_capacity(len);
    for _ in 0..len {
        seed = seed.wrapping_mul(6364136223846793005).wrapping_add(1442695040888963407);
        let pick = (seed >> 58) as u8;
        out.push(match pick {
            0..=25 => (b'a' + pick) as char,
            26..=51 => (b'A' + pick - 26) as char,
            _ => (b'0' + (pick - 52) % 10) as char,
        });
    }
    out
}

fn header_count(data: &[u8]) -> u32 {
    assert_eq!(data[..4], *b"RDFB");
    assert_eq!(data[4], b'1');
    u32::from_le_bytes([data[6], data[7], data[8], data[9]])
}

#[test]
fn serialize_writes_a_container() {
    let statements: VecDeque<(usize, Quad)> = indexed(3).into();
    let data = serialize_statements(&statements, 3).unwrap();
    assert_eq!(header_count(&data), 3);
    assert!(data.len() > 10);
}

#[test]
fn serialize_takes_the_leading_statements_only() {
    let statements: VecDeque<(usize, Quad)> = indexed(5).into();
    let two: VecDeque<(usize, Quad)> = indexed(2).into();
    let data = serialize_statements(&statements, 2).unwrap();
    assert_eq!(header_count(&data), 2);
    assert_eq!(data, serialize_statements(&two, 2).unwrap());
    assert_ne!(data, serialize_statements(&statements, 3).unwrap());
    assert_eq!(header_count(&serialize_statements(&statements, 0).unwrap()), 0);
}

#[test]
fn serialize_depends_on_the_statements_alone() {
    let statements: VecDeque<(usize, Quad)> = indexed(50).into();
    let again: VecDeque<(usize, Quad)> = indexed(50).into_iter().map(|(i, q)| (i + 7, q)).collect();
    assert_eq!(
        serialize_statements(&statements, 50).unwrap(),
        serialize_statements(&again, 50).unwrap()
    );
    let other: VecDeque<(usize, Quad)> = vec![(0, quad(0, "x"))].into();
    let one: VecDeque<(usize, Quad)> = vec![(0, quad(0, "y"))].into();
    assert_ne!(serialize_statements(&other, 1).unwrap(), serialize_statements(&one, 1).unwrap());
}

#[test]
fn serialize_reports_a_full_dictionary() {
    // Each statement brings two new terms; the dictionary holds 65535.
    let statements: VecDeque<(usize, Quad)> = indexed(33_000).into();
    assert!(matches!(
        serialize_statements(&statements, 33_000),
        Err(SerializeError::ContainerOverflow)
    ));
    assert!(serialize_statements(&statements, 32_767).is_ok());
    assert!(matches!(
        serialize_statements(&statements, 32_768),
        Err(SerializeError::ContainerOverflow)
    ));
}

fn quoted() -> Triple {
    Triple::new(
        NamedNode::new_unchecked("http://example.org/a"),
        NamedNode::new_unchecked("http://example.org/b"),
        NamedNode::new_unchecked("http://example.org/c"),
    )
}

fn quoting_subject() -> Quad {
    Quad::new(
        Subject::Triple(Box::new(quoted())),
        NamedNode::new_unchecked("http://example.org/p"),
        Literal::new_simple_literal("o"),
        GraphName::DefaultGraph,
    )
}

fn quoting_object() -> Quad {
    Quad::new(
        NamedNode::new_unchecked("http://example.org/s"),
        NamedNode::new_unchecked("http://example.org/p"),
        Term::Triple(Box::new(quoted())),
        GraphName::DefaultGraph,
    )
}

#[test]
fn serialize_names_the_first_statement_that_quotes_a_triple() {
    let statements: VecDeque<(usize, Quad)> = vec![
        (10, quad(0, "a")),
        (11, quoting_object()),
        (12, quoting_subject()),
        (13, quad(1, "b")),
    ]
    .into();
    assert!(serialize_statements(&statements, 1).is_ok());
    assert!(matches!(
        serialize_statements(&statements, 2),
        Err(SerializeError::QuotedTriple(11))
    ));
    assert!(matches!(
        serialize_statements(&statements, 4),
        Err(SerializeError::QuotedTriple(11))
    ));
    let statements: VecDeque<(usize, Quad)> = vec![(7, quoting_subject())].into();
    assert!(matches!(
        serialize_statements(&statements, 1),
        Err(SerializeError::QuotedTriple(7))
    ));
    assert!(serialize_statements(&statements, 0).is_ok());
}

#[test]
fn serialize_takes_named_graphs_and_blank_nodes() {
    let statements: VecDeque<(usize, Quad)> = vec![
        (
            0,
            Quad::new(
                oxrdf::BlankNode::new_unchecked("b0"),
                NamedNode::new_unchecked("http://example.org/p"),
                oxrdf::BlankNode::new_unchecked("b1"),
                NamedNode::new_unchecked("http://example.org/g"),
            ),
        ),
        (
            1,
            Quad::new(
                NamedNode::new_unchecked("http://example.org/s"),
                NamedNode::new_unchecked("http://example.org/p"),
                Literal::new_language_tagged_literal_unchecked("chat", "fr"),
                oxrdf::BlankNode::new_unchecked("g"),
            ),
        ),
    ]
    .into();
    assert_eq!(header_count(&serialize_statements(&statements, 2).unwrap()), 2);
}

#[test]
fn packer_stops_at_a_statement_that_quotes_a_triple() {
    let mut packer = Packer::new();
    packer.extend(StatementBatch { quads: vec![(0, quad(0, "a")), (1, quoting_subject())] });
    packer.close_input();
    // One statement is probed and fits; the next probe takes in both.
    assert!(matches!(packer.step(), Ok(PackerStep::Probed)));
    assert!(matches!(packer.step(), Err(SerializeError::QuotedTriple(1))));
    assert_eq!(packer.buffer.len(), 2);
    assert!(matches!(packer.step(), Err(SerializeError::QuotedTriple(1))));
    assert!(matches!(
        prepare_datasets(vec![(5, quoting_object())]),
        Err(SerializeError::QuotedTriple(5))
    ));
}

#[test]
fn new_packer_asks_for_input() {
    let mut packer = Packer::new();
    assert!(packer.wants_input());
    assert!(packer.have_more);
    assert_eq!(packer.skipped, 0);
    assert_eq!(packer.search.max_bytes, MAX_FILE_SIZE);
    assert!(matches!(packer.step(), Ok(PackerStep::NeedInput)));
    assert!(packer.buffer.is_empty());
}

#[test]
fn closed_empty_packer_is_finished() {
    let mut packer = Packer::new();
    packer.close_input();
    assert!(!packer.wants_input());
    assert!(matches!(packer.step(), Ok(PackerStep::Finished)));
    assert!(matches!(packer.step(), Ok(PackerStep::Finished)));
}

#[test]
fn extend_keeps_the_order() {
    let mut packer = Packer::new();
    packer.extend(StatementBatch { quads: indexed(3) });
    packer.extend(StatementBatch { quads: vec![(9, quad(9, "z"))] });
    packer.extend(StatementBatch { quads: Vec::new() });
    let indices: Vec<usize> = packer.buffer.iter().map(|(i, _)| *i).collect();
    assert_eq!(indices, vec![0, 1, 2, 9]);
    assert_eq!(packer.buffer[3].1, quad(9, "z"));
    assert!(packer.have_more);
}

#[test]
fn open_packer_probes_what_it_has_then_asks_for_more() {
    let mut packer = Packer::new();
    packer.extend(StatementBatch { quads: indexed(2) });
    // One statement is probed, fits with room, and the probe size goes to 3.
    assert!(matches!(packer.step(), Ok(PackerStep::Probed)));
    assert_eq!(packer.search.write_count, 3);
    assert!(packer.wants_input());
    assert!(matches!(packer.step(), Ok(PackerStep::NeedInput)));
    assert_eq!(packer.buffer.len(), 2);
    packer.close_input();
    match packer.step() {
        Ok(PackerStep::Dataset(dataset)) => {
            assert_eq!(dataset.statement_count, 2);
            assert_eq!(dataset.skipped_statements, 0);
            assert_eq!(header_count(&dataset.data), 2);
        }
        other => panic!("{other:?}"),
    }
    assert!(packer.buffer.is_empty());
    assert_eq!(packer.search.write_count, 1);
    assert!(matches!(packer.step(), Ok(PackerStep::Finished)));
}

#[test]
fn statement_too_large_alone_is_skipped() {
    let mut packer = Packer::new();
    let big = Quad::new(
        NamedNode::new_unchecked("http://example.org/big"),
        NamedNode::new_unchecked("http://example.org/p"),
        Literal::new_simple_literal(noise(3 * MAX_FILE_SIZE)),
        GraphName::DefaultGraph,
    );
    packer.extend(StatementBatch { quads: vec![(40, quad(1, "a")), (41, big), (42, quad(2, "b"))] });
    packer.close_input();
    let mut steps = Vec::new();
    let mut datasets = Vec::new();
    loop {
        match packer.step().unwrap() {
            PackerStep::Finished => break,
            PackerStep::NeedInput => panic!("input is closed"),
            PackerStep::Probed => steps.push(String::from("probed")),
            PackerStep::Skipped(index) => steps.push(format!("skipped {index}")),
            PackerStep::Dataset(dataset) => {
                steps.push(format!("dataset {}", dataset.statement_count));
                datasets.push(dataset);
            }
        }
        assert!(steps.len() < 100);
    }
    // 1 fits; 3 are too large; 2 are too large; 1 fits and, next to the
    // overflow, is sent. Then the large statement is probed alone.
    assert_eq!(
        steps,
        vec!["probed", "probed", "probed", "dataset 1", "skipped 41", "dataset 1"]
    );
    assert_eq!(datasets[0].skipped_statements, 0);
    assert_eq!(datasets[1].skipped_statements, 1);
    assert_eq!(packer.skipped, 0);
}

#[test]
fn empty_input_gives_no_dataset() {
    let prepared = prepare_datasets(Vec::new()).unwrap();
    assert!(prepared.datasets.is_empty());
    assert_eq!(prepared.skipped_statements, 0);
}

#[test]
fn single_statement_gives_one_dataset() {
    let prepared = prepare_datasets(indexed(1)).unwrap();
    assert_eq!(prepared.datasets.len(), 1);
    assert_eq!(prepared.datasets[0].statement_count, 1);
    assert_eq!(prepared.datasets[0].skipped_statements, 0);
    assert_eq!(header_count(&prepared.datasets[0].data), 1);
    assert_eq!(prepared.skipped_statements, 0);
    let alone: VecDeque<(usize, Quad)> = indexed(1).into();
    assert_eq!(prepared.datasets[0].data, serialize_statements(&alone, 1).unwrap());
}

#[test]
fn datasets_hold_consecutive_statements() {
    let input = indexed(40_000);
    let prepared = prepare_datasets(input.clone()).unwrap();
    assert!(prepared.datasets.len() >= 2);
    assert_eq!(prepared.skipped_statements, 0);
    let mut start = 0;
    for dataset in &prepared.datasets {
        assert!(dataset.data.len() <= MAX_FILE_SIZE);
        assert!(dataset.statement_count >= 1);
        assert_eq!(dataset.skipped_statements, 0);
        assert_eq!(header_count(&dataset.data) as usize, dataset.statement_count);
        let run: VecDeque<(usize, Quad)> =
            input[start..start + dataset.statement_count].iter().cloned().collect();
        assert_eq!(dataset.data, serialize_statements(&run, run.len()).unwrap());
        start += dataset.statement_count;
    }
    assert_eq!(start, 40_000);
}

#[test]
fn repeated_statements_count_for_the_packer_though_the_container_folds_them() {
    let input = vec![(0, quad(1, "a")), (1, quad(1, "a")), (2, quad(2, "b")), (3, quad(1, "a"))];
    let prepared = prepare_datasets(input).unwrap();
    assert_eq!(prepared.datasets.len(), 1);
    assert_eq!(prepared.datasets[0].statement_count, 4);
    assert_eq!(header_count(&prepared.datasets[0].data), 2);
}

#[test]
fn probes_stay_logarithmic_when_the_buffer_is_refilled() {
    fn log2(mut n: usize) -> usize {
        let mut log = 0;
        while n > 1 {
            n /= 2;
            log += 1;
        }
        log
    }
    let total = 40_000;
    let mut chunks = indexed(total).chunks(1_000).map(|chunk| chunk.to_vec()).collect::<Vec<_>>();
    chunks.reverse();
    let mut packer = Packer::new();
    let mut sent = 0;
    let mut probes = 0;
    let mut bound = log2(packer.search.delta) + 2 * log2(total + 1) + 5;
    let mut datasets = 0;
    loop {
        match packer.step().unwrap() {
            PackerStep::NeedInput => match chunks.pop() {
                Some(quads) => packer.extend(StatementBatch { quads }),
                None => packer.close_input(),
            },
            PackerStep::Finished => break,
            PackerStep::Probed => {
                probes += 1;
                assert!(probes < bound, "{probes} probes, at most {bound}");
            }
            PackerStep::Skipped(index) => panic!("statement {index} fits"),
            PackerStep::Dataset(dataset) => {
                sent += dataset.statement_count;
                datasets += 1;
                probes = 0;
                bound = log2(packer.search.delta) + 2 * log2(total - sent + 1) + 5;
            }
        }
    }
    assert_eq!(sent, total);
    assert!(datasets >= 2);
}

#[test]
fn trailing_skips_are_counted() {
    let big = |subject: usize| {
        Quad::new(
            NamedNode::new_unchecked(format!("http://example.org/big/{subject}")),
            NamedNode::new_unchecked("http://example.org/p"),
            Literal::new_simple_literal(noise(3 * MAX_FILE_SIZE)),
            GraphName::DefaultGraph,
        )
    };
    let prepared = prepare_datasets(vec![(0, big(0)), (1, quad(1, "a")), (2, big(2))]).unwrap();
    assert_eq!(prepared.datasets.len(), 1);
    assert_eq!(prepared.datasets[0].statement_count, 1);
    assert_eq!(prepared.datasets[0].skipped_statements, 1);
    assert_eq!(prepared.skipped_statements, 1);
    let alone: VecDeque<(usize, Quad)> = vec![(1, quad(1, "a"))].into();
    assert_eq!(prepared.datasets[0].data, serialize_statements(&alone, 1).unwrap());
}

#[test]
fn batcher_numbers_statements_across_batches() {
    let mut batcher = MicroBatcher::new(2);
    assert!(!batcher.push(quad(0, "a")));
    assert!(batcher.push(quad(1, "b")));
    let (progress, batch) = batcher.flush("one.nt", 120, false).unwrap();
    assert_eq!(progress.filename, "one.nt");
    assert_eq!(progress.bytes, 120);
    assert_eq!(progress.statement_count, 2);
    assert!(!progress.finished);
    assert_eq!(batch.quads, vec![(0, quad(0, "a")), (1, quad(1, "b"))]);
    assert!(batcher.quads.is_empty());
    assert_eq!(batcher.next_index, 2);
    assert!(!batcher.push(quad(2, "c")));
    let (progress, batch) = batcher.flush("one.nt", 30, true).unwrap();
    assert_eq!(progress.statement_count, 1);
    assert!(progress.finished);
    assert_eq!(batch.quads, vec![(2, quad(2, "c"))]);
    // The next file goes on where the first one stopped.
    assert!(!batcher.push(quad(3, "d")));
    let (_, batch) = batcher.flush("two.nt", 10, true).unwrap();
    assert_eq!(batch.quads[0].0, 3);
}

#[test]
fn batcher_reports_nothing_at_a_bare_end() {
    let mut batcher = MicroBatcher::new(BATCH_SIZE);
    assert_eq!(BATCH_SIZE, 100_000);
    assert!(batcher.flush("one.nt", 0, true).is_none());
    // A byte, an open file or a statement each ask for a report.
    let (progress, batch) = batcher.flush("one.nt", 1, true).unwrap();
    assert_eq!((progress.bytes, progress.statement_count, progress.finished), (1, 0, true));
    assert!(batch.quads.is_empty());
    let (progress, _) = batcher.flush("one.nt", 0, false).unwrap();
    assert_eq!((progress.bytes, progress.statement_count, progress.finished), (0, 0, false));
    batcher.push(quad(0, "a"));
    let (progress, batch) = batcher.flush("one.nt", 0, true).unwrap();
    assert_eq!((progress.bytes, progress.statement_count, progress.finished), (0, 1, true));
    assert_eq!(batch.quads.len(), 1);
    assert!(batcher.flush("one.nt", 0, true).is_none());
    assert_eq!(batcher.next_index, 1);
}

#[test]
fn pipeline_sizes() {
    assert_eq!(BATCH_CHANNEL_CAPACITY, 100);
    assert_eq!(DATASET_CHANNEL_CAPACITY, 10);
    assert_eq!(PACKER_COUNT, 6);
}
