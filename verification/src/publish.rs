//! What publication needs of the prepared files: which files are prepared
//! already, and the arguments of the call that inserts one dataset.

use crate::path::{extension, names_view, path_extension, same_bytes};
use vstd::prelude::*;
use vstd::string::StringExecFns;
use vstd::string::StringSliceAdditionalSpecFns;

verus! {

/// The method of the repository contract that takes in a dataset.
pub const RDF_INSERT_METHOD: &'static str = "rdf_insert";

/// The gas given to one call of the method, in teragas.
pub const RDF_INSERT_TGAS: u64 = 300;

/// The deposit attached to one call of the method.
pub const RDF_INSERT_DEPOSIT: u128 = 0;

/// The version of the layout of the arguments.
pub const ARGS_VERSION: u8 = 1;

/// The tag of the binary RDF container among the dataset encodings.
pub const ENCODING_RDFB: u8 = 1;

/// The networks that hold repositories.
#[derive(Clone, Copy, Debug, PartialEq, Eq, Structural)]
pub enum Network {
    Mainnet,
    Testnet,
}

/// Why no network could be chosen.
#[derive(Clone, Copy, Debug, PartialEq, Eq, Structural)]
pub enum NetworkError {
    /// The name given is neither `mainnet` nor `testnet`.
    UnknownName,
    /// No name was given, and the account of the repository ends neither
    /// in `near` nor in `testnet`.
    CannotInfer,
}

/// `mainnet` in ASCII.
pub open spec fn mainnet_name() -> Seq<u8> {
    seq![109u8, 97u8, 105u8, 110u8, 110u8, 101u8, 116u8]
}

/// `testnet` in ASCII.
pub open spec fn testnet_name() -> Seq<u8> {
    seq![116u8, 101u8, 115u8, 116u8, 110u8, 101u8, 116u8]
}

/// `near` in ASCII.
pub open spec fn near_label() -> Seq<u8> {
    seq![110u8, 101u8, 97u8, 114u8]
}

/// The part of an account name after its last dot; all of it where it has
/// no dot.
pub open spec fn last_label(account: Seq<u8>) -> Seq<u8>
    decreases account.len(),
{
    if account.len() == 0 {
        account
    } else if account.last() == 46u8 {
        Seq::empty()
    } else {
        last_label(account.drop_last()).push(account.last())
    }
}

/// The network for a repository: the one that is named or, where none is
/// named, the one that the last label of the repository's account tells,
/// `near` for the main network and `testnet` for the test network.
pub open spec fn network_for(name: Option<Seq<u8>>, repository: Seq<u8>) -> Result<
    Network,
    NetworkError,
> {
    match name {
        Some(name) => if name == mainnet_name() {
            Ok(Network::Mainnet)
        } else if name == testnet_name() {
            Ok(Network::Testnet)
        } else {
            Err(NetworkError::UnknownName)
        },
        None => if last_label(repository) == near_label() {
            Ok(Network::Mainnet)
        } else if last_label(repository) == testnet_name() {
            Ok(Network::Testnet)
        } else {
            Err(NetworkError::CannotInfer)
        },
    }
}

/// Bytes without a dot stay in the last label when they are put behind.
proof fn lemma_last_label_grows(front: Seq<u8>, back: Seq<u8>)
    requires
        forall|i: int| 0 <= i < back.len() ==> back[i] != 46u8,
    ensures
        last_label(front + back) == last_label(front) + back,
    decreases back.len(),
{
    if back.len() > 0 {
        let whole = front + back;
        assert(whole.drop_last() =~= front + back.drop_last());
        lemma_last_label_grows(front, back.drop_last());
        assert(last_label(front) + back =~= (last_label(front) + back.drop_last()).push(
            back.last(),
        ));
    }
}

/// The part of `account` after its last dot.
pub fn account_last_label(account: &[u8]) -> (label: Vec<u8>)
    ensures
        label@ == last_label(account@),
{
    let mut start: usize = account.len();
    while start > 0 && account[start - 1] != 46u8
        invariant
            start <= account@.len(),
            forall|i: int| start <= i < account@.len() ==> account@[i] != 46u8,
        decreases start,
    {
        start = start - 1;
    }
    let mut label: Vec<u8> = Vec::new();
    let mut i: usize = start;
    while i < account.len()
        invariant
            start <= i <= account@.len(),
            label@ == account@.subrange(start as int, i as int),
        decreases account@.len() - i,
    {
        label.push(account[i]);
        assert(account@.subrange(start as int, i + 1) =~= account@.subrange(
            start as int,
            i as int,
        ).push(account@[i as int]));
        i = i + 1;
    }
    proof {
        let front = account@.take(start as int);
        let back = account@.skip(start as int);
        assert(account@ =~= front + back);
        lemma_last_label_grows(front, back);
    }
    label
}

/// Chooses the network for a repository: the one named by `name` or, where
/// no name is given, the one that the account of the repository ends in.
pub fn choose_network(name: Option<&str>, repository: &str) -> (r: Result<Network, NetworkError>)
    ensures
        r == network_for(
            match name {
                Some(name) => Some(name.spec_bytes()),
                None => None,
            },
            repository.spec_bytes(),
        ),
{
    let mainnet: [u8; 7] = [109, 97, 105, 110, 110, 101, 116];
    let testnet: [u8; 7] = [116, 101, 115, 116, 110, 101, 116];
    let near: [u8; 4] = [110, 101, 97, 114];
    match name {
        Some(name) => {
            if same_bytes(name.as_bytes(), mainnet.as_slice()) {
                Ok(Network::Mainnet)
            } else if same_bytes(name.as_bytes(), testnet.as_slice()) {
                Ok(Network::Testnet)
            } else {
                Err(NetworkError::UnknownName)
            }
        },
        None => {
            let label = account_last_label(repository.as_bytes());
            if same_bytes(label.as_slice(), near.as_slice()) {
                Ok(Network::Mainnet)
            } else if same_bytes(label.as_slice(), testnet.as_slice()) {
                Ok(Network::Testnet)
            } else {
                Err(NetworkError::CannotInfer)
            }
        },
    }
}

/// `n` in four bytes, the least significant first.
pub open spec fn le_u32(n: nat) -> Seq<u8> {
    seq![
        (n % 256) as u8,
        (n / 256 % 256) as u8,
        (n / 65536 % 256) as u8,
        (n / 16777216 % 256) as u8,
    ]
}

/// The arguments of the call that inserts a dataset: the version, the name
/// of the dataset as its length and its bytes, the tag of the encoding, and
/// the bytes of the file.
pub open spec fn insert_args(name: Seq<u8>, contents: Seq<u8>) -> Seq<u8> {
    seq![ARGS_VERSION] + le_u32(name.len()) + name + seq![ENCODING_RDFB] + contents
}

/// Whether the file at `path` is a prepared dataset: its extension is `rdfb`.
pub open spec fn is_prepared(path: Seq<char>) -> bool {
    path_extension(path) == Some("rdfb"@)
}

/// `BorshSerialize::serialize` of a string into a vector: the length of its
/// UTF-8 form in four little-endian bytes, then that form. A string longer
/// than `u32::MAX` bytes is refused before anything is written.
#[verifier::external_body]
fn borsh_append_str(out: &mut Vec<u8>, text: &str) -> (r: Result<(), std::io::Error>)
    ensures
        r is Ok <==> text.spec_bytes().len() <= u32::MAX,
        r is Ok ==> final(out)@ == old(out)@ + le_u32(text.spec_bytes().len())
            + text.spec_bytes(),
        r is Err ==> final(out)@ == old(out)@,
{
    borsh::BorshSerialize::serialize(text, out)
}

/// Whether an extension, if one was found, is that of a prepared dataset:
/// `rdfb`, in lower case.
pub fn names_prepared(found: Option<&str>) -> (r: bool)
    ensures
        r == (found matches Some(name) && name@ == "rdfb"@),
{
    match found {
        Some(name) => name.to_owned() == String::from_str("rdfb"),
        None => false,
    }
}

/// Whether the file at `path` is a prepared dataset.
pub fn has_prepared_extension(path: &str) -> (r: bool)
    ensures
        r == is_prepared(path@),
{
    match extension(path) {
        Some(found) => names_prepared(Some(found.as_str())),
        None => names_prepared(None),
    }
}

/// Splits the files into (prepared, unprepared) according to their file
/// extension. Each part keeps the order of the files.
pub fn split_prepared_files(files: &[String]) -> (parts: (Vec<String>, Vec<String>))
    ensures
        names_view(parts.0@) == names_view(files@).filter(|path: Seq<char>| is_prepared(path)),
        names_view(parts.1@) == names_view(files@).filter(|path: Seq<char>| !is_prepared(path)),
{
    let ghost names = names_view(files@);
    let ghost yes = |path: Seq<char>| is_prepared(path);
    let ghost no = |path: Seq<char>| !is_prepared(path);
    let mut prepared: Vec<String> = Vec::new();
    let mut unprepared: Vec<String> = Vec::new();
    let mut i: usize = 0;
    proof {
        reveal(Seq::filter);
    }
    while i < files.len()
        invariant
            i <= files@.len(),
            names == names_view(files@),
            yes == |path: Seq<char>| is_prepared(path),
            no == |path: Seq<char>| !is_prepared(path),
            names_view(prepared@) == names.take(i as int).filter(yes),
            names_view(unprepared@) == names.take(i as int).filter(no),
        decreases files@.len() - i,
    {
        let file = files[i].clone();
        proof {
            reveal(Seq::filter);
            assert(names.take(i + 1).drop_last() =~= names.take(i as int));
        }
        if has_prepared_extension(file.as_str()) {
            prepared.push(file);
        } else {
            unprepared.push(file);
        }
        i = i + 1;
    }
    assert(names.take(i as int) =~= names);
    (prepared, unprepared)
}

/// The arguments of the call that inserts the dataset in `contents` under
/// the name `dataset`, which may be empty. Fails exactly where the name is
/// longer than `u32::MAX` bytes.
pub fn rdf_insert_args(dataset: &str, contents: &[u8]) -> (r: Result<Vec<u8>, std::io::Error>)
    ensures
        r is Ok <==> dataset.spec_bytes().len() <= u32::MAX,
        r matches Ok(args) ==> args@ == insert_args(dataset.spec_bytes(), contents@),
{
    let mut args: Vec<u8> = Vec::new();
    args.push(ARGS_VERSION);
    match borsh_append_str(&mut args, dataset) {
        Ok(()) => {},
        Err(error) => {
            return Err(error);
        },
    }
    args.push(ENCODING_RDFB);
    args.extend_from_slice(contents);
    Ok(args)
}

} // verus!
