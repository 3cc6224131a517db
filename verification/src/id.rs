//! Stable identifiers and content hashes.

use vstd::prelude::*;
use vstd::utf8::encode_utf8;
use crate::text::{owned, push_char, zero_padded, zero_padded_string};
use sha2::Digest;

verus! {

/// Model-level errors.
#[derive(Debug, Clone)]
pub enum AIDocError {
    InvalidNodeId(String),
    DuplicateNodeId(String),
    MissingRootNode,
    InvalidParent { parent: String, child: String },
    CircularHierarchy(String),
    OrphanNode(String),
    MissingTarget(String),
    InvalidRelation(String),
    RevisionNotFound(String),
    RevisionConflict { expected: String, actual: String },
    InvalidOperation(String),
    InvalidTargetRevision(String),
    OperationFailed(String),
}

/// The human-readable message of an error.
pub open spec fn aidoc_error_text(e: AIDocError) -> Seq<char> {
    match e {
        AIDocError::InvalidNodeId(m) => "invalid node id: "@ + m@,
        AIDocError::DuplicateNodeId(m) => "duplicate node id: "@ + m@,
        AIDocError::MissingRootNode => "missing root node"@,
        AIDocError::InvalidParent { parent, child } => "invalid parent reference: parent="@ + parent@ + ", child="@ + child@,
        AIDocError::CircularHierarchy(m) => "circular hierarchy detected at node "@ + m@,
        AIDocError::OrphanNode(m) => "orphan node: "@ + m@,
        AIDocError::MissingTarget(m) => "missing target node: "@ + m@,
        AIDocError::InvalidRelation(m) => "invalid relation: "@ + m@,
        AIDocError::RevisionNotFound(m) => "revision not found: "@ + m@,
        AIDocError::RevisionConflict { expected, actual } => "revision conflict: expected="@ + expected@ + ", actual="@ + actual@,
        AIDocError::InvalidOperation(m) => "invalid operation: "@ + m@,
        AIDocError::InvalidTargetRevision(m) => "invalid target revision: "@ + m@,
        AIDocError::OperationFailed(m) => "operation failed: "@ + m@,
    }
}

fn join(a: &str, b: &str) -> (r: String)
    ensures
        r@ == a@ + b@,
{
    let mut s = owned(a);
    s.append(b);
    s
}

impl AIDocError {
    /// The human-readable message.
    pub fn message(&self) -> (r: String)
        ensures
            r@ == aidoc_error_text(*self),
    {
        match self {
            AIDocError::InvalidNodeId(m) => join("invalid node id: ", m.as_str()),
            AIDocError::DuplicateNodeId(m) => join("duplicate node id: ", m.as_str()),
            AIDocError::MissingRootNode => owned("missing root node"),
            AIDocError::InvalidParent { parent, child } => {
                let mut s = join("invalid parent reference: parent=", parent.as_str());
                s.append(", child=");
                s.append(child.as_str());
                s
            },
            AIDocError::CircularHierarchy(m) => join("circular hierarchy detected at node ", m.as_str()),
            AIDocError::OrphanNode(m) => join("orphan node: ", m.as_str()),
            AIDocError::MissingTarget(m) => join("missing target node: ", m.as_str()),
            AIDocError::InvalidRelation(m) => join("invalid relation: ", m.as_str()),
            AIDocError::RevisionNotFound(m) => join("revision not found: ", m.as_str()),
            AIDocError::RevisionConflict { expected, actual } => {
                let mut s = join("revision conflict: expected=", expected.as_str());
                s.append(", actual=");
                s.append(actual.as_str());
                s
            },
            AIDocError::InvalidOperation(m) => join("invalid operation: ", m.as_str()),
            AIDocError::InvalidTargetRevision(m) => join("invalid target revision: ", m.as_str()),
            AIDocError::OperationFailed(m) => join("operation failed: ", m.as_str()),
        }
    }
}

/// A character allowed in a node id: ASCII letter or digit, `_`, `-` or `.`.
pub open spec fn is_id_char(c: char) -> bool {
    ||| ('a' <= c && c <= 'z')
    ||| ('A' <= c && c <= 'Z')
    ||| ('0' <= c && c <= '9')
    ||| c == '_'
    ||| c == '-'
    ||| c == '.'
}

/// A non-empty string made of id characters only.
pub open spec fn is_valid_node_id(s: Seq<char>) -> bool {
    &&& s.len() > 0
    &&& forall|i: int| 0 <= i < s.len() ==> is_id_char(#[trigger] s[i])
}

pub fn id_char(c: char) -> (r: bool)
    ensures
        r == is_id_char(c),
{
    ('a' <= c && c <= 'z') || ('A' <= c && c <= 'Z') || ('0' <= c && c <= '9') || c == '_' || c
        == '-' || c == '.'
}

/// A stable, human-readable node id.
#[derive(Debug)]
pub struct NodeId(String);

impl View for NodeId {
    type V = Seq<char>;

    closed spec fn view(&self) -> Seq<char> {
        self.0@
    }
}

impl Clone for NodeId {
    fn clone(&self) -> (r: Self)
        ensures
            r@ == self@,
    {
        NodeId(self.0.clone())
    }
}

impl PartialEq for NodeId {
    fn eq(&self, other: &Self) -> (r: bool) {
        self.0 == other.0
    }
}

impl vstd::std_specs::cmp::PartialEqSpecImpl for NodeId {
    open spec fn obeys_eq_spec() -> bool {
        true
    }

    open spec fn eq_spec(&self, other: &Self) -> bool {
        self@ == other@
    }
}

impl NodeId {
    /// Validate and wrap a node id: non-empty, `[A-Za-z0-9_.-]` only.
    pub fn new(value: &str) -> (r: Result<NodeId, AIDocError>)
        ensures
            r is Ok <==> is_valid_node_id(value@),
            r matches Ok(id) ==> id@ == value@,
            r matches Err(e) ==> (e matches AIDocError::InvalidNodeId(m) && (if value@.len() == 0 {
                m@ == seq!['e', 'm', 'p', 't', 'y']
            } else {
                m@ == value@
            })),
    {
        let mut all_ok = true;
        let mut n: usize = 0;
        for c in it: value.chars()
            invariant
                it.seq() == value@,
                all_ok <==> forall|i: int| 0 <= i < it.index@ ==> is_id_char(#[trigger] value@[i]),
                (n == 0) <==> (it.index@ == 0),
        {
            if !id_char(c) {
                all_ok = false;
            }
            n = 1;
        }
        if n == 0 {
            let mut m = String::new();
            push_char(&mut m, 'e');
            push_char(&mut m, 'm');
            push_char(&mut m, 'p');
            push_char(&mut m, 't');
            push_char(&mut m, 'y');
            return Err(AIDocError::InvalidNodeId(m));
        }
        if !all_ok {
            return Err(AIDocError::InvalidNodeId(owned(value)));
        }
        Ok(NodeId(owned(value)))
    }

    /// Wrap a string the caller has already checked.
    pub fn from_validated(value: &str) -> (r: NodeId)
        ensures
            r@ == value@,
    {
        NodeId(owned(value))
    }

    /// Wrap an owned string the caller has already checked.
    pub fn from_string(value: String) -> (r: NodeId)
        ensures
            r@ == value@,
    {
        NodeId(value)
    }

    pub fn as_str(&self) -> (r: &str)
        ensures
            r@ == self@,
    {
        self.0.as_str()
    }
}

/// Operation id, e.g. `OP-105`.
#[derive(Debug)]
pub struct OpId(String);

impl View for OpId {
    type V = Seq<char>;

    closed spec fn view(&self) -> Seq<char> {
        self.0@
    }
}

impl Clone for OpId {
    fn clone(&self) -> (r: Self)
        ensures
            r@ == self@,
    {
        OpId(self.0.clone())
    }
}

impl OpId {
    pub fn new(value: &str) -> (r: OpId)
        ensures
            r@ == value@,
    {
        OpId(owned(value))
    }

    pub fn from_string(value: String) -> (r: OpId)
        ensures
            r@ == value@,
    {
        OpId(value)
    }

    pub fn as_str(&self) -> (r: &str)
        ensures
            r@ == self@,
    {
        self.0.as_str()
    }
}

/// Revision id, e.g. `R105`.
#[derive(Debug)]
pub struct RevisionId(String);

impl View for RevisionId {
    type V = Seq<char>;

    closed spec fn view(&self) -> Seq<char> {
        self.0@
    }
}

impl Clone for RevisionId {
    fn clone(&self) -> (r: Self)
        ensures
            r@ == self@,
    {
        RevisionId(self.0.clone())
    }
}

impl PartialEq for RevisionId {
    fn eq(&self, other: &Self) -> (r: bool) {
        self.0 == other.0
    }
}

impl vstd::std_specs::cmp::PartialEqSpecImpl for RevisionId {
    open spec fn obeys_eq_spec() -> bool {
        true
    }

    open spec fn eq_spec(&self, other: &Self) -> bool {
        self@ == other@
    }
}

/// `R` followed by the sequence number, zero-padded to three digits.
pub open spec fn revision_text(seq: nat) -> Seq<char> {
    seq!['R'] + zero_padded(seq, 3)
}

impl RevisionId {
    pub fn new(value: &str) -> (r: RevisionId)
        ensures
            r@ == value@,
    {
        RevisionId(owned(value))
    }

    pub fn from_string(value: String) -> (r: RevisionId)
        ensures
            r@ == value@,
    {
        RevisionId(value)
    }

    pub fn as_str(&self) -> (r: &str)
        ensures
            r@ == self@,
    {
        self.0.as_str()
    }

    /// `R{:03}`: `R000`, `R001`, ..., `R1000`.
    pub fn from_sequence(seq: u64) -> (r: RevisionId)
        ensures
            r@ == revision_text(seq as nat),
    {
        let mut s = String::new();
        push_char(&mut s, 'R');
        let digits = zero_padded_string(seq, 3);
        s.append(digits.as_str());
        RevisionId(s)
    }
}

/// The SHA-256 digest of `bytes`.
pub uninterp spec fn sha256_of(bytes: Seq<u8>) -> Seq<u8>;

/// `sha2::Sha256::digest`: the 32-byte digest of `bytes`, copied out of the
/// fixed-size array the crate returns.
#[verifier::external_body]
fn sha256_digest(bytes: &[u8]) -> (r: Vec<u8>)
    ensures
        r@ == sha256_of(bytes@),
        r@.len() == 32,
{
    sha2::Sha256::digest(bytes).to_vec()
}

/// The lowercase hexadecimal digit of `v < 16`.
pub open spec fn hex_digit(v: nat) -> char {
    if v < 10 { (48 + v) as char } else { (87 + v) as char }
}

/// Lowercase hexadecimal text of `bytes`, two digits per byte, high half first.
pub open spec fn hex_spec(bytes: Seq<u8>) -> Seq<char>
    decreases bytes.len(),
{
    if bytes.len() == 0 {
        Seq::empty()
    } else {
        hex_spec(bytes.drop_last()) + seq![hex_digit(bytes.last() as nat / 16), hex_digit(bytes.last() as nat % 16)]
    }
}

pub proof fn lemma_hex_len(bytes: Seq<u8>)
    ensures
        hex_spec(bytes).len() == 2 * bytes.len(),
    decreases bytes.len(),
{
    if bytes.len() > 0 {
        lemma_hex_len(bytes.drop_last());
    }
}

fn hex_char(v: u8) -> (c: char)
    requires
        v < 16,
    ensures
        c == hex_digit(v as nat),
{
    if v < 10 { (48 + v) as char } else { (87 + v) as char }
}

/// Lowercase hexadecimal text of `bytes` (what `hex::encode` writes).
pub fn hex_encode(bytes: &[u8]) -> (r: String)
    ensures
        r@ == hex_spec(bytes@),
{
    let mut out = String::new();
    let mut i: usize = 0;
    while i < bytes.len()
        invariant
            i <= bytes@.len(),
            out@ == hex_spec(bytes@.take(i as int)),
        decreases bytes@.len() - i,
    {
        let b = bytes[i];
        push_char(&mut out, hex_char(b / 16));
        push_char(&mut out, hex_char(b % 16));
        proof {
            let t = bytes@.take(i + 1);
            assert(t.drop_last() =~= bytes@.take(i as int));
            assert(t.last() == b);
        }
        i = i + 1;
    }
    assert(bytes@.take(bytes@.len() as int) =~= bytes@);
    out
}

/// The SHA-256 digest of `bytes`, written `sha256:` + 64 lowercase hex digits.
pub open spec fn sha256_hex_of(bytes: Seq<u8>) -> Seq<char> {
    hash_prefix() + hex_spec(sha256_of(bytes))
}

pub open spec fn hash_prefix() -> Seq<char> {
    seq!['s', 'h', 'a', '2', '5', '6', ':']
}

/// `sha256:` followed by the lowercase hex of the SHA-256 digest of `bytes`.
pub fn sha256_hex(bytes: &[u8]) -> (r: String)
    ensures
        r@ == sha256_hex_of(bytes@),
        r@.len() == 71,
        r@.subrange(0, 7) == hash_prefix(),
{
    let digest = sha256_digest(bytes);
    let mut s = owned("sha256:");
    proof {
        reveal_strlit("sha256:");
        assert(s@ =~= hash_prefix());
        lemma_hex_len(digest@);
    }
    s.append(hex_encode(digest.as_slice()).as_str());
    assert(s@.subrange(0, 7) =~= hash_prefix());
    s
}

/// The hash stored for a node's content: SHA-256 of its UTF-8 bytes.
pub open spec fn content_hash_of(content: Seq<char>) -> Seq<char> {
    sha256_hex_of(encode_utf8(content))
}

pub fn content_hash(content: &str) -> (r: String)
    ensures
        r@ == content_hash_of(content@),
{
    let bytes = content.as_bytes_vec();
    sha256_hex(bytes.as_slice())
}

} // verus!
