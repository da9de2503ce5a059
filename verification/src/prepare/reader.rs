//! The reader's part: the syntax of a file, and the bundling of statements
//! into micro-batches.

use crate::path::{eq_ignoring_case, extension, path_extension, same_ignoring_case};
use crate::ui::prepare::ReaderProgress;
use vstd::prelude::*;
use vstd::string::StringSliceAdditionalSpecFns;

verus! {

/// A micro-batch: statements in input order, each with its input index.
pub struct StatementBatch {
    pub quads: Vec<(usize, oxrdf::Quad)>,
}

/// How many statements the reader puts into one micro-batch.
pub const BATCH_SIZE: usize = 100_000;

/// The message for a file whose extension names no known syntax.
pub const UNKNOWN_FORMAT: &'static str = "Unknown file format";

/// The RDF syntaxes that input files may be written in.
#[derive(Clone, Copy, Debug, PartialEq, Eq, Structural)]
pub enum InputFormat {
    N3,
    NTriples,
    NQuads,
    RdfXml,
    Turtle,
    TriG,
}

impl InputFormat {
    /// The file extension of the syntax, in ASCII: `n3`, `nt`, `nq`, `rdf`,
    /// `ttl` or `trig`.
    pub open spec fn extension_bytes(self) -> Seq<u8> {
        match self {
            InputFormat::N3 => seq![110u8, 51u8],
            InputFormat::NTriples => seq![110u8, 116u8],
            InputFormat::NQuads => seq![110u8, 113u8],
            InputFormat::RdfXml => seq![114u8, 100u8, 102u8],
            InputFormat::Turtle => seq![116u8, 116u8, 108u8],
            InputFormat::TriG => seq![116u8, 114u8, 105u8, 103u8],
        }
    }

    /// The syntax that an extension names, the case of letters aside.
    pub open spec fn named_by(extension: Seq<u8>) -> Option<InputFormat> {
        if same_ignoring_case(extension, InputFormat::N3.extension_bytes()) {
            Some(InputFormat::N3)
        } else if same_ignoring_case(extension, InputFormat::NTriples.extension_bytes()) {
            Some(InputFormat::NTriples)
        } else if same_ignoring_case(extension, InputFormat::NQuads.extension_bytes()) {
            Some(InputFormat::NQuads)
        } else if same_ignoring_case(extension, InputFormat::RdfXml.extension_bytes()) {
            Some(InputFormat::RdfXml)
        } else if same_ignoring_case(extension, InputFormat::Turtle.extension_bytes()) {
            Some(InputFormat::Turtle)
        } else if same_ignoring_case(extension, InputFormat::TriG.extension_bytes()) {
            Some(InputFormat::TriG)
        } else {
            None
        }
    }

    /// The syntax of the file at `path`, by its extension.
    pub open spec fn of_path(path: Seq<char>) -> Option<InputFormat> {
        match path_extension(path) {
            Some(found) => InputFormat::named_by(vstd::utf8::encode_utf8(found)),
            None => None,
        }
    }

    /// The file extension of the syntax.
    pub fn extension(self) -> (name: Vec<u8>)
        ensures
            name@ == self.extension_bytes(),
    {
        match self {
            InputFormat::N3 => vec![110u8, 51u8],
            InputFormat::NTriples => vec![110u8, 116u8],
            InputFormat::NQuads => vec![110u8, 113u8],
            InputFormat::RdfXml => vec![114u8, 100u8, 102u8],
            InputFormat::Turtle => vec![116u8, 116u8, 108u8],
            InputFormat::TriG => vec![116u8, 114u8, 105u8, 103u8],
        }
    }

    /// Looks up the syntax that a file extension names. Upper and lower
    /// case are not told apart; an extension that names none gives `None`.
    pub fn from_extension(extension: &str) -> (format: Option<InputFormat>)
        ensures
            format == InputFormat::named_by(extension.spec_bytes()),
    {
        let bytes = extension.as_bytes();
        let all = [
            InputFormat::N3,
            InputFormat::NTriples,
            InputFormat::NQuads,
            InputFormat::RdfXml,
            InputFormat::Turtle,
            InputFormat::TriG,
        ];
        let mut i: usize = 0;
        while i < 6
            invariant
                i <= 6,
                bytes@ == extension.spec_bytes(),
                all@ == seq![
                    InputFormat::N3,
                    InputFormat::NTriples,
                    InputFormat::NQuads,
                    InputFormat::RdfXml,
                    InputFormat::Turtle,
                    InputFormat::TriG,
                ],
                forall|j: int| 0 <= j < i ==> !same_ignoring_case(bytes@, #[trigger] all@[j].extension_bytes()),
            decreases 6 - i,
        {
            let name = all[i].extension();
            if eq_ignoring_case(bytes, name.as_slice()) {
                return Some(all[i]);
            }
            i = i + 1;
        }
        assert(all@[0] == InputFormat::N3 && all@[1] == InputFormat::NTriples && all@[2]
            == InputFormat::NQuads && all@[3] == InputFormat::RdfXml && all@[4]
            == InputFormat::Turtle && all@[5] == InputFormat::TriG);
        None
    }

    /// The syntax of the file at `path`, by its extension; `None` where the
    /// path has no extension or the extension names no known syntax.
    pub fn for_path(path: &str) -> (format: Option<InputFormat>)
        ensures
            format == InputFormat::of_path(path@),
    {
        match extension(path) {
            Some(found) => InputFormat::from_extension(found.as_str()),
            None => None,
        }
    }
}

/// The reader's bundling of statements into micro-batches. Statements are
/// numbered as they come, across batches and files.
pub struct MicroBatcher {
    /// How many statements make a full micro-batch.
    pub batch_size: usize,
    /// The index that the next statement gets.
    pub next_index: usize,
    /// The statements gathered for the next micro-batch.
    pub quads: Vec<(usize, oxrdf::Quad)>,
}

impl MicroBatcher {
    /// The statements gathered carry consecutive indices that end just
    /// before `next_index`.
    pub open spec fn wf(self) -> bool {
        &&& self.quads@.len() <= self.next_index
        &&& forall|i: int|
            0 <= i < self.quads@.len() ==> (#[trigger] self.quads@[i]).0 == self.next_index
                - self.quads@.len() + i
    }

    /// A batcher that has seen no statement.
    pub fn new(batch_size: usize) -> (batcher: MicroBatcher)
        ensures
            batcher.wf(),
            batcher.batch_size == batch_size,
            batcher.next_index == 0,
            batcher.quads@.len() == 0,
    {
        MicroBatcher { batch_size, next_index: 0, quads: Vec::new() }
    }

    /// Takes in the next statement of the input and gives it the next
    /// index. Answers whether the micro-batch is full.
    pub fn push(&mut self, quad: oxrdf::Quad) -> (full: bool)
        requires
            old(self).wf(),
            old(self).next_index < usize::MAX,
        ensures
            final(self).wf(),
            final(self).quads@ == old(self).quads@.push((old(self).next_index, quad)),
            final(self).next_index == old(self).next_index + 1,
            final(self).batch_size == old(self).batch_size,
            full == (final(self).quads@.len() >= old(self).batch_size),
    {
        self.quads.push((self.next_index, quad));
        self.next_index = self.next_index + 1;
        self.quads.len() >= self.batch_size
    }

    /// Closes the micro-batch after `bytes` bytes were read from `filename`
    /// since the last one, `finished` telling whether the file has ended.
    ///
    /// Gives the micro-batch and the report to send with it. Gives nothing
    /// exactly where the file has ended and there is neither a statement
    /// nor a byte to report.
    pub fn flush(&mut self, filename: &str, bytes: usize, finished: bool) -> (r: Option<
        (ReaderProgress, StatementBatch),
    >)
        requires
            old(self).wf(),
        ensures
            final(self).wf(),
            final(self).next_index == old(self).next_index,
            final(self).batch_size == old(self).batch_size,
            r is None <==> finished && old(self).quads@.len() == 0 && bytes == 0,
            r is None ==> final(self).quads@ == old(self).quads@,
            r matches Some((progress, batch)) ==> {
                &&& batch.quads@ == old(self).quads@
                &&& final(self).quads@.len() == 0
                &&& progress.filename@ == filename@
                &&& progress.bytes == bytes
                &&& progress.statement_count == old(self).quads@.len()
                &&& progress.finished == finished
            },
    {
        if finished && self.quads.len() == 0 && bytes == 0 {
            return None;
        }
        let mut quads: Vec<(usize, oxrdf::Quad)> = Vec::new();
        std::mem::swap(&mut self.quads, &mut quads);
        let progress = ReaderProgress {
            filename: filename.to_owned(),
            bytes,
            statement_count: quads.len(),
            finished,
        };
        Some((progress, StatementBatch { quads }))
    }
}

} // verus!
