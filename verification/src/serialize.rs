//! Serialization of statements into the binary RDF container.
//!
//! The container is written by `rdf_borsh::BorshWriter`, which keeps a term
//! dictionary of bounded size and compresses the dataset when it is finished.
//! The writer owns its sink and drops it on finishing, so the bytes are
//! collected in a buffer that the sink shares with the caller.

use crate::search::MAX_FILE_SIZE;
use rdf_rs::model::Statement;
use rdf_writer::Writer;
use std::cell::RefCell;
use std::collections::VecDeque;
use std::rc::Rc;
use vstd::prelude::*;

verus! {

/// `oxrdf::Quad`, a statement as the parser gives it. It is carried
/// through and never looked into.
#[verifier::external_type_specification]
#[verifier::external_body]
pub struct ExQuad(oxrdf::Quad);

/// `rdf_borsh::BorshWriter`, the writer of the container.
#[verifier::external_type_specification]
#[verifier::external_body]
pub struct ExBorshWriter(rdf_borsh::BorshWriter);

/// `std::io::Error`, the error of the writer.
#[verifier::external_type_specification]
#[verifier::external_body]
pub struct ExIoError(std::io::Error);

/// `std::cell::RefCell`, which holds the buffer that the sink shares.
#[verifier::external_type_specification]
#[verifier::external_body]
#[verifier::reject_recursive_types(T)]
pub struct ExRefCell<T: ?Sized>(RefCell<T>);

/// The statements that a writer has taken in, in the order of the calls.
pub uninterp spec fn written(writer: rdf_borsh::BorshWriter) -> Seq<oxrdf::Quad>;

/// Whether a writer that has taken in `written` has room in its term
/// dictionary for the terms of `statement`.
pub uninterp spec fn takes(written: Seq<oxrdf::Quad>, statement: oxrdf::Quad) -> bool;

/// The container that finishing a writer gives for the statements it has
/// taken in; where finishing fails, whether the error is of the kind `Other`.
pub uninterp spec fn rdfb_bytes(written: Seq<oxrdf::Quad>) -> Result<Seq<u8>, bool>;

/// Whether an I/O error is of the kind `Other`.
pub uninterp spec fn is_other_kind(error: std::io::Error) -> bool;

/// Whether the subject of a statement is a quoted triple.
pub uninterp spec fn subject_is_triple(statement: oxrdf::Quad) -> bool;

/// Whether the object of a statement is a quoted triple.
pub uninterp spec fn object_is_triple(statement: oxrdf::Quad) -> bool;

/// Why a group of statements could not be serialized.
#[derive(Debug)]
pub enum SerializeError {
    /// The container's term dictionary is full: fewer statements may fit.
    ContainerOverflow,
    /// The statement with this input index has a quoted triple for its
    /// subject or object, which the encoder cannot take in.
    QuotedTriple(usize),
    /// Any other failure of the encoder.
    Failed(std::io::Error),
}

/// Whether a statement has a quoted triple for its subject or object.
pub open spec fn quotes_triple(statement: oxrdf::Quad) -> bool {
    subject_is_triple(statement) || object_is_triple(statement)
}

/// Whether `at` is the place of the first statement that quotes a triple.
pub open spec fn first_quoting(statements: Seq<(usize, oxrdf::Quad)>, at: int) -> bool {
    &&& 0 <= at < statements.len()
    &&& quotes_triple(statements[at].1)
    &&& forall|i: int| 0 <= i < at ==> !quotes_triple((#[trigger] statements[i]).1)
}

/// Whether no statement quotes a triple.
pub open spec fn all_plain(statements: Seq<(usize, oxrdf::Quad)>) -> bool {
    forall|i: int| 0 <= i < statements.len() ==> !quotes_triple((#[trigger] statements[i]).1)
}

/// A sink that appends what is written to a buffer shared with its maker.
struct SharedBufferWriter {
    buffer: Rc<RefCell<Vec<u8>>>,
}

impl std::io::Write for SharedBufferWriter {
    /// Appends `buf` to the shared buffer through `RefCell::borrow_mut`.
    #[verifier::external_body]
    fn write(&mut self, buf: &[u8]) -> std::io::Result<usize> {
        self.buffer.borrow_mut().extend_from_slice(buf);
        Ok(buf.len())
    }

    /// Nothing is held back, so there is nothing to flush.
    fn flush(&mut self) -> std::io::Result<()> {
        Ok(())
    }
}

/// A writer together with the buffer that its sink fills. Only
/// `open_encoder` makes one, so the two always belong together.
struct Encoder {
    writer: rdf_borsh::BorshWriter,
    buffer: Rc<RefCell<Vec<u8>>>,
}

/// `BorshWriter::new` on a sink that fills `buffer`. The call always
/// succeeds, and the new writer has taken in no statement.
#[verifier::external_body]
fn open_encoder(buffer: Vec<u8>) -> (r: Result<Encoder, std::io::Error>)
    requires
        buffer@.len() == 0,
    ensures
        r is Ok,
        r matches Ok(encoder) ==> written(encoder.writer) == Seq::<oxrdf::Quad>::empty(),
{
    let buffer = Rc::new(RefCell::new(buffer));
    let sink = SharedBufferWriter { buffer: buffer.clone() };
    Ok(Encoder { writer: rdf_borsh::BorshWriter::new(Box::new(sink))?, buffer })
}

/// `Subject::is_triple` of the subject of a statement.
#[verifier::external_body]
fn has_triple_subject(statement: &oxrdf::Quad) -> (r: bool)
    ensures
        r == subject_is_triple(*statement),
{
    statement.subject.is_triple()
}

/// `Term::is_triple` of the object of a statement.
#[verifier::external_body]
fn has_triple_object(statement: &oxrdf::Quad) -> (r: bool)
    ensures
        r == object_is_triple(*statement),
{
    statement.object.is_triple()
}

/// `Writer::write_statement` of `BorshWriter`, on the statement as
/// `From<oxrdf::Quad>` boxes it. It fails only where the term dictionary has
/// no room for a term of the statement, with an error of the kind `Other`;
/// a writer that failed is dropped. A statement whose subject or object is
/// a quoted triple is left out: the boxed statement panics when it is asked
/// for the kind of such a term.
#[verifier::external_body]
fn write_statement(encoder: Encoder, statement: &oxrdf::Quad) -> (r: Result<
    Encoder,
    std::io::Error,
>)
    requires
        !quotes_triple(*statement),
    ensures
        r is Ok <==> takes(written(encoder.writer), *statement),
        r matches Ok(after) ==> written(after.writer) == written(encoder.writer).push(*statement),
        r matches Err(error) ==> is_other_kind(error),
{
    let mut encoder = encoder;
    let boxed: Box<dyn Statement> = statement.clone().into();
    encoder.writer.write_statement(boxed.as_ref())?;
    Ok(encoder)
}

/// `BorshWriter::finish`, followed by taking the bytes that it wrote out of
/// the shared buffer. The bytes, or the kind of the error, depend on the
/// statements taken in alone.
#[verifier::external_body]
fn finish_encoder(encoder: Encoder) -> (r: Result<Vec<u8>, std::io::Error>)
    ensures
        match rdfb_bytes(written(encoder.writer)) {
            Ok(bytes) => r matches Ok(data) && data@ == bytes,
            Err(other) => r matches Err(error) && is_other_kind(error) == other,
        },
{
    encoder.writer.finish()?;
    Ok(encoder.buffer.take())
}

/// `std::io::Error::kind`, compared with `ErrorKind::Other`.
#[verifier::external_body]
fn kind_is_other(error: &std::io::Error) -> (r: bool)
    ensures
        r == is_other_kind(*error),
{
    error.kind() == std::io::ErrorKind::Other
}

/// The statements of indexed statements, without their indices.
pub open spec fn quads_of(statements: Seq<(usize, oxrdf::Quad)>) -> Seq<oxrdf::Quad> {
    statements.map_values(|s: (usize, oxrdf::Quad)| s.1)
}

/// Whether a fresh writer takes in every statement of `quads`, in order.
pub open spec fn all_taken(quads: Seq<oxrdf::Quad>) -> bool {
    forall|i: int| 0 <= i < quads.len() ==> takes(#[trigger] quads.take(i), quads[i])
}

/// What serializing statements with a fresh writer comes to.
pub enum Encoded {
    /// The container.
    Bytes(Seq<u8>),
    /// The term dictionary is full, or the encoder failed with an error of
    /// the kind `Other`, which is taken for the same.
    ContainerOverflow,
    /// The encoder failed with an error of another kind.
    Failure,
}

/// The outcome of serializing `quads` with a fresh writer.
pub open spec fn serialized(quads: Seq<oxrdf::Quad>) -> Encoded {
    if !all_taken(quads) {
        Encoded::ContainerOverflow
    } else {
        match rdfb_bytes(quads) {
            Ok(bytes) => Encoded::Bytes(bytes),
            Err(true) => Encoded::ContainerOverflow,
            Err(false) => Encoded::Failure,
        }
    }
}

impl SerializeError {
    /// An encoder error is a container overflow exactly if its kind is `Other`.
    fn from_io(error: std::io::Error) -> (r: SerializeError)
        ensures
            r is ContainerOverflow <==> is_other_kind(error),
            r is ContainerOverflow || r is Failed,
            r matches SerializeError::Failed(inner) ==> inner == error,
    {
        if kind_is_other(&error) {
            SerializeError::ContainerOverflow
        } else {
            SerializeError::Failed(error)
        }
    }
}

/// Serializes the first `count` of `statements` into one container, with a
/// fresh writer and a buffer sized for the largest batch.
///
/// Where one of the statements quotes a triple, nothing is written and the
/// error names the first of them. Otherwise the bytes come back exactly if
/// the writer takes in every statement and finishes. An error of the
/// encoder of the kind `Other`, such as a full term dictionary, comes back
/// as `ContainerOverflow`, any other as `Failed`.
pub fn serialize_statements(statements: &VecDeque<(usize, oxrdf::Quad)>, count: usize) -> (r:
    Result<Vec<u8>, SerializeError>)
    requires
        count <= statements@.len(),
    ensures
        r matches Err(SerializeError::QuotedTriple(_)) <==> !all_plain(
            statements@.take(count as int),
        ),
        r matches Err(SerializeError::QuotedTriple(index)) ==> exists|at: int|
            first_quoting(statements@.take(count as int), at) && index
                == (#[trigger] statements@[at]).0,
        all_plain(statements@.take(count as int)) ==> match serialized(
            quads_of(statements@.take(count as int)),
        ) {
            Encoded::Bytes(bytes) => r matches Ok(data) && data@ == bytes,
            Encoded::ContainerOverflow => r matches Err(SerializeError::ContainerOverflow),
            Encoded::Failure => r matches Err(SerializeError::Failed(_)),
        },
{
    let ghost probed = statements@.take(count as int);
    let ghost quads = quads_of(probed);
    let mut i: usize = 0;
    while i < count
        invariant
            i <= count <= statements@.len(),
            probed == statements@.take(count as int),
            forall|j: int| 0 <= j < i ==> !quotes_triple((#[trigger] probed[j]).1),
        decreases count - i,
    {
        let statement = &statements[i].1;
        if has_triple_subject(statement) || has_triple_object(statement) {
            assert(statements@[i as int] == probed[i as int]);
            return Err(SerializeError::QuotedTriple(statements[i].0));
        }
        i = i + 1;
    }
    let mut encoder = match open_encoder(Vec::with_capacity(MAX_FILE_SIZE)) {
        Ok(encoder) => encoder,
        Err(error) => {
            return Err(SerializeError::from_io(error));
        },
    };
    let mut i: usize = 0;
    while i < count
        invariant
            i <= count <= statements@.len(),
            probed == statements@.take(count as int),
            quads == quads_of(probed),
            all_plain(probed),
            written(encoder.writer) == quads.take(i as int),
            forall|j: int| 0 <= j < i ==> takes(#[trigger] quads.take(j), quads[j]),
        decreases count - i,
    {
        match write_statement(encoder, &statements[i].1) {
            Ok(after) => {
                encoder = after;
            },
            Err(error) => {
                return Err(SerializeError::from_io(error));
            },
        }
        i = i + 1;
    }
    assert(quads.take(count as int) =~= quads);
    match finish_encoder(encoder) {
        Ok(data) => Ok(data),
        Err(error) => Err(SerializeError::from_io(error)),
    }
}

} // verus!
