//! Rules of a workspace: which connections may stay, how a stored
//! workspace becomes text, and how text is packed for storing.

use vstd::prelude::*;
use vstd::string::*;
use vstd::utf8::{decode_utf8, encode_utf8, valid_utf8};
use crate::graph::connection::Connection;
use crate::graph::node::Node;
use crate::graph::port::PortVariant;
use crate::text::same_text;

verus! {

/// `std::io::Error`, the failure of a reader or writer.
#[verifier::external_type_specification]
#[verifier::external_body]
pub struct ExIoError(std::io::Error);

/// `std::string::FromUtf8Error`, the failure of reading bytes as text.
#[verifier::external_type_specification]
#[verifier::external_body]
pub struct ExFromUtf8Error(std::string::FromUtf8Error);

/// `String::from_utf8` gives the text that the bytes encode in UTF-8, and
/// fails exactly where they are no such encoding.
pub assume_specification[ std::string::String::from_utf8 ](vec: Vec<u8>) -> (r: Result<
    std::string::String,
    std::string::FromUtf8Error,
>)
    ensures
        r is Ok <==> valid_utf8(vec@),
        r is Ok ==> r->Ok_0@ == decode_utf8(vec@),
;

/// The zstd frame that `zstd::encode_all` makes of the given bytes at the
/// given level.
pub uninterp spec fn zstd_frame(data: Seq<u8>, level: i32) -> Seq<u8>;

/// The bytes that `zstd::decode_all` reads out of the given frames.
pub uninterp spec fn zstd_content(frames: Seq<u8>) -> Seq<u8>;

/// Compresses with `zstd::encode_all`. Where the call succeeds, it gives
/// the frame of the bytes at the level. Nothing is claimed of when it
/// succeeds.
#[verifier::external_body]
fn zstd_encode(data: &[u8], level: i32) -> (r: Result<Vec<u8>, std::io::Error>)
    ensures
        r is Ok ==> r->Ok_0@ == zstd_frame(data@, level),
{
    zstd::encode_all(data, level)
}

/// Decompresses with `zstd::decode_all`. Where the call succeeds, it gives
/// the content of the frames. Nothing is claimed of when it succeeds.
#[verifier::external_body]
fn zstd_decode(data: &[u8]) -> (r: Result<Vec<u8>, std::io::Error>)
    ensures
        r is Ok ==> r->Ok_0@ == zstd_content(data@),
{
    zstd::decode_all(data)
}

/// A failure of reading or packing a workspace.
#[derive(Debug, Clone, Copy, PartialEq, Eq, Structural)]
pub enum WorkspaceError {
    /// The text could not be compressed.
    Compress,
    /// The bytes could not be decompressed.
    Decompress,
    /// The bytes are not text.
    NotText,
    /// The workspace was stored by another version.
    VersionMismatch,
}

/// The text that the given bytes encode, or `NotText`.
pub fn text_of_bytes(bytes: Vec<u8>) -> (r: Result<String, WorkspaceError>)
    ensures
        match r {
            Ok(text) => valid_utf8(bytes@) && text@ == decode_utf8(bytes@),
            Err(e) => !valid_utf8(bytes@) && e == WorkspaceError::NotText,
        },
{
    match String::from_utf8(bytes) {
        Ok(text) => Ok(text),
        Err(_) => Err(WorkspaceError::NotText),
    }
}

/// The text of what a decompression gave: `Decompress` where it failed,
/// else the text that the bytes encode, or `NotText`.
pub fn decoded_text(decoded: Result<Vec<u8>, std::io::Error>) -> (r: Result<String, WorkspaceError>)
    ensures
        match decoded {
            Err(_) => r == Err::<String, WorkspaceError>(WorkspaceError::Decompress),
            Ok(bytes) => match r {
                Ok(text) => valid_utf8(bytes@) && text@ == decode_utf8(bytes@),
                Err(e) => !valid_utf8(bytes@) && e == WorkspaceError::NotText,
            },
        },
{
    match decoded {
        Err(_) => Err(WorkspaceError::Decompress),
        Ok(bytes) => text_of_bytes(bytes),
    }
}

/// What a compression gave: the frame, or `Compress` where it failed.
pub fn encoded_bytes(encoded: Result<Vec<u8>, std::io::Error>) -> (r: Result<
    Vec<u8>,
    WorkspaceError,
>)
    ensures
        match encoded {
            Err(_) => r == Err::<Vec<u8>, WorkspaceError>(WorkspaceError::Compress),
            Ok(bytes) => r == Ok::<Vec<u8>, WorkspaceError>(bytes),
        },
{
    match encoded {
        Err(_) => Err(WorkspaceError::Compress),
        Ok(bytes) => Ok(bytes),
    }
}

/// Compresses the text of a workspace at the default level.
pub fn compress(file_data: String) -> (r: Result<Vec<u8>, WorkspaceError>)
    ensures
        match r {
            Ok(bytes) => bytes@ == zstd_frame(encode_utf8(file_data@), 0),
            Err(e) => e == WorkspaceError::Compress,
        },
{
    encoded_bytes(zstd_encode(file_data.as_str().as_bytes(), 0))
}

/// Decompresses the text of a workspace.
pub fn decompress(compressed_data: &[u8]) -> (r: Result<String, WorkspaceError>)
    ensures
        match r {
            Ok(text) => valid_utf8(zstd_content(compressed_data@)) && text@ == decode_utf8(
                zstd_content(compressed_data@),
            ),
            Err(e) => e == WorkspaceError::Decompress || (e == WorkspaceError::NotText
                && !valid_utf8(zstd_content(compressed_data@))),
        },
{
    decoded_text(zstd_decode(compressed_data))
}

/// The text of a stored workspace: of its bytes as they are, or, where the
/// workspace was stored compressed, of what they decompress to.
pub fn stored_text(bytes: Vec<u8>, compressed: bool) -> (r: Result<String, WorkspaceError>)
    ensures
        !compressed ==> match r {
            Ok(text) => valid_utf8(bytes@) && text@ == decode_utf8(bytes@),
            Err(e) => !valid_utf8(bytes@) && e == WorkspaceError::NotText,
        },
        compressed ==> match r {
            Ok(text) => valid_utf8(zstd_content(bytes@)) && text@ == decode_utf8(
                zstd_content(bytes@),
            ),
            Err(e) => e == WorkspaceError::Decompress || (e == WorkspaceError::NotText
                && !valid_utf8(zstd_content(bytes@))),
        },
{
    if compressed {
        decompress(bytes.as_slice())
    } else {
        text_of_bytes(bytes)
    }
}

/// The bytes to store for the text of a workspace: the text as it is, or
/// compressed.
pub fn bytes_to_store(text: String, compressed: bool) -> (r: Result<Vec<u8>, WorkspaceError>)
    ensures
        !compressed ==> r is Ok && r->Ok_0@ == encode_utf8(text@),
        compressed ==> match r {
            Ok(bytes) => bytes@ == zstd_frame(encode_utf8(text@), 0),
            Err(e) => e == WorkspaceError::Compress,
        },
{
    if compressed {
        compress(text)
    } else {
        Ok(text.as_str().as_bytes_vec())
    }
}

/// Accepts a workspace exactly where the version that stored it is the
/// version that reads it.
pub fn check_version(found: &str, expected: &str) -> (r: Result<(), WorkspaceError>)
    ensures
        r is Ok <==> found@ == expected@,
        r is Err ==> r == Err::<(), WorkspaceError>(WorkspaceError::VersionMismatch),
{
    if same_text(found, expected) {
        Ok(())
    } else {
        Err(WorkspaceError::VersionMismatch)
    }
}

/// The identifiers of the given nodes, in order.
pub open spec fn node_ids(nodes: Seq<Node>) -> Seq<usize> {
    nodes.map_values(|n: Node| n.id)
}

/// Whether a connection is sound: it links two different nodes, and both
/// are among the given nodes.
pub open spec fn sound(c: Connection, ids: Seq<usize>) -> bool {
    c.from.0 != c.to.0 && ids.contains(c.from.0) && ids.contains(c.to.0)
}

/// Whether the connection at index `i` stays: it is sound, and no sound
/// connection after it ends at the same port.
pub open spec fn stays(conns: Seq<Connection>, ids: Seq<usize>, i: int) -> bool {
    &&& sound(conns[i], ids)
    &&& forall|j: int|
        i < j < conns.len() && sound(#[trigger] conns[j], ids) ==> conns[j].to != conns[i].to
}

/// The connections among the first `n` that stay, in their order.
pub open spec fn staying(conns: Seq<Connection>, ids: Seq<usize>, n: int) -> Seq<Connection>
    decreases n,
{
    if n <= 0 {
        Seq::empty()
    } else {
        let rest = staying(conns, ids, n - 1);
        if stays(conns, ids, n - 1) {
            rest.push(conns[n - 1])
        } else {
            rest
        }
    }
}

fn has_node(nodes: &Vec<Node>, id: usize) -> (r: bool)
    ensures
        r == node_ids(nodes@).contains(id),
{
    let mut i: usize = 0;
    while i < nodes.len()
        invariant
            i <= nodes.len(),
            forall|k: int| 0 <= k < i ==> node_ids(nodes@)[k] != id,
        decreases nodes.len() - i,
    {
        if nodes[i].id == id {
            assert(node_ids(nodes@)[i as int] == id);
            return true;
        }
        i = i + 1;
    }
    false
}

fn is_sound(c: &Connection, nodes: &Vec<Node>) -> (r: bool)
    ensures
        r == sound(*c, node_ids(nodes@)),
{
    c.from.0 != c.to.0 && has_node(nodes, c.from.0) && has_node(nodes, c.to.0)
}

/// Drops the connections that may not stay: those that link a node to
/// itself, those with an end at a node that is not among `nodes`, and, of
/// the rest, all but the last that end at the same port. The others keep
/// their order.
pub fn verify_connections(connections: &Vec<Connection>, nodes: &Vec<Node>) -> (r: Vec<Connection>)
    ensures
        r@ == staying(connections@, node_ids(nodes@), connections@.len() as int),
{
    let ghost ids = node_ids(nodes@);
    let mut out: Vec<Connection> = Vec::new();
    let mut i: usize = 0;
    while i < connections.len()
        invariant
            i <= connections.len(),
            ids == node_ids(nodes@),
            out@ == staying(connections@, ids, i as int),
        decreases connections.len() - i,
    {
        let c = connections[i];
        let mut keep = is_sound(&c, nodes);
        let mut j: usize = i + 1;
        while keep && j < connections.len()
            invariant
                i < j <= connections.len(),
                ids == node_ids(nodes@),
                c == connections@[i as int],
                keep ==> sound(c, ids),
                keep ==> forall|k: int|
                    i < k < j && sound(#[trigger] connections@[k], ids) ==> connections@[k].to
                        != c.to,
                !keep ==> !stays(connections@, ids, i as int),
            decreases connections.len() - j + if keep { 1nat } else { 0nat },
        {
            let d = connections[j];
            if is_sound(&d, nodes) && d.to.0 == c.to.0 && d.to.1 == c.to.1 {
                keep = false;
            } else {
                j = j + 1;
            }
        }
        if keep {
            out.push(c);
        }
        i = i + 1;
    }
    out
}

/// The connections among the first `n` that do not end at the port `to`,
/// in their order.
pub open spec fn not_ending_at(conns: Seq<Connection>, to: (usize, usize), n: int) -> Seq<Connection>
    decreases n,
{
    if n <= 0 {
        Seq::empty()
    } else {
        let rest = not_ending_at(conns, to, n - 1);
        if conns[n - 1].to == to {
            rest
        } else {
            rest.push(conns[n - 1])
        }
    }
}

/// The index of the first of `conns[from..]` that ends at the port `to`.
pub open spec fn first_ending_at(conns: Seq<Connection>, to: (usize, usize), from: int) -> Option<int>
    decreases conns.len() - from,
{
    if from < 0 || from >= conns.len() {
        None
    } else if conns[from].to == to {
        Some(from)
    } else {
        first_ending_at(conns, to, from + 1)
    }
}

/// Takes the connection off an input port: where a connection ends at the
/// port `to`, gives the start of the first such connection and removes
/// every connection that ends there; else gives nothing and removes
/// nothing.
pub fn detach(connections: &mut Vec<Connection>, to: (usize, usize)) -> (r: Option<(usize, usize)>)
    ensures
        match first_ending_at(old(connections)@, to, 0) {
            Some(i) => r == Some(old(connections)@[i].from) && final(connections)@ == not_ending_at(
                old(connections)@,
                to,
                old(connections)@.len() as int,
            ),
            None => r is None && final(connections)@ == old(connections)@,
        },
{
    let mut found: Option<(usize, usize)> = None;
    let mut kept: Vec<Connection> = Vec::new();
    let mut i: usize = 0;
    while i < connections.len()
        invariant
            i <= connections.len(),
            connections@ == old(connections)@,
            kept@ == not_ending_at(connections@, to, i as int),
            match found {
                Some(from) => first_ending_at(connections@, to, 0) is Some && from
                    == connections@[first_ending_at(connections@, to, 0)->Some_0].from,
                None => first_ending_at(connections@, to, 0) == first_ending_at(
                    connections@,
                    to,
                    i as int,
                ) && kept@ == connections@.take(i as int),
            },
        decreases connections.len() - i,
    {
        let c = connections[i];
        if c.to.0 == to.0 && c.to.1 == to.1 {
            if found.is_none() {
                found = Some(c.from);
            }
        } else {
            kept.push(c);
            assert(connections@.take(i as int).push(c) =~= connections@.take(i + 1));
        }
        i = i + 1;
    }
    match found {
        Some(from) => {
            *connections = kept;
            Some(from)
        },
        None => {
            assert(connections@.take(connections@.len() as int) =~= connections@);
            None
        },
    }
}

/// Puts a connection between two ports: where the ports are of one kind,
/// the connection of that kind is added at the end, and the connections
/// that may not stay are dropped; where they are not, nothing changes.
pub fn attach(
    connections: &mut Vec<Connection>,
    nodes: &Vec<Node>,
    from: (usize, usize),
    from_variant: PortVariant,
    to: (usize, usize),
    to_variant: PortVariant,
) -> (r: bool)
    ensures
        r == (from_variant == to_variant),
        r ==> final(connections)@ == staying(
            old(connections)@.push(Connection { variant: to_variant, from, to }),
            node_ids(nodes@),
            old(connections)@.len() as int + 1,
        ),
        !r ==> final(connections)@ == old(connections)@,
{
    if from_variant == to_variant {
        connections.push(Connection { variant: to_variant, from, to });
        let kept = verify_connections(connections, nodes);
        *connections = kept;
        true
    } else {
        false
    }
}

/// A description cut to a length that fits a node: the description itself
/// where it takes at most 18 bytes, else its first 18 characters and three
/// dots.
pub open spec fn short_text(desc: Seq<char>, bytes: nat) -> Seq<char> {
    if bytes > 18 {
        desc.take(if desc.len() < 18 { desc.len() as int } else { 18 }) + "..."@
    } else {
        desc
    }
}

/// Cuts a description to a length that fits a node.
pub fn short_desc(desc: &str) -> (r: String)
    ensures
        r@ == short_text(desc@, desc.spec_bytes().len()),
{
    if desc.as_bytes().len() > 18 {
        let n = desc.unicode_len();
        let cut: usize = if n < 18 { n } else { 18 };
        let mut out = String::from_str(desc.substring_char(0, cut));
        out.append("...");
        assert(desc@.subrange(0, cut as int) =~= desc@.take(cut as int));
        out
    } else {
        String::from_str(desc)
    }
}

} // verus!
