//! Identity persistence.
//!
//! A node's identity is a signing keypair, carried here as its protobuf
//! encoding (the format of the peer-to-peer library).  The decision logic
//! — use the stored bytes when they decode, otherwise generate a fresh
//! keypair and write it back — is verified; reading and writing the file
//! itself is left to the callers, who hand the file's bytes in and out.

use vstd::prelude::*;

verus! {

/// Whether `libp2p_identity::Keypair::from_protobuf_encoding` accepts the
/// bytes.
pub uninterp spec fn keypair_decodes(bytes: Seq<u8>) -> bool;

/// The textual peer identifier derived from an encoded keypair: the
/// base58 form of the hash of its public key, a function of the bytes
/// alone.
pub uninterp spec fn keypair_peer_id(bytes: Seq<u8>) -> Seq<u8>;

/// The canonical text of a parsed peer identifier, a function of the
/// input text alone.
pub uninterp spec fn parsed_peer_id(s: Seq<u8>) -> Option<Seq<u8>>;

/// Relies on `libp2p_identity::Keypair::generate_ed25519` and
/// `Keypair::to_protobuf_encoding`: a fresh Ed25519 keypair in its
/// protobuf encoding.  The library's decoder accepts what its encoder
/// produced, so the result decodes; the key material is random and
/// nothing else is assumed.  Encoding an Ed25519 key cannot fail.
#[verifier::external_body]
pub fn generate_keypair_bytes() -> (r: Vec<u8>)
    ensures
        keypair_decodes(r@),
{
    let keypair = libp2p_identity::Keypair::generate_ed25519();
    keypair.to_protobuf_encoding().expect("an Ed25519 keypair always encodes")
}

/// Relies on `libp2p_identity::Keypair::from_protobuf_encoding`: whether
/// the bytes decode to a keypair.
#[verifier::external_body]
pub fn keypair_bytes_decode(bytes: &Vec<u8>) -> (r: bool)
    ensures
        r == keypair_decodes(bytes@),
{
    libp2p_identity::Keypair::from_protobuf_encoding(bytes).is_ok()
}

/// Relies on `libp2p_identity::Keypair::from_protobuf_encoding`,
/// `Keypair::public`, `PublicKey::to_peer_id` and `PeerId::to_base58`:
/// the peer identifier of the encoded keypair, in text form.  The
/// identifier is a deterministic function of the bytes.
#[verifier::external_body]
pub fn peer_id_of_keypair(bytes: &Vec<u8>) -> (r: Option<Vec<u8>>)
    ensures
        r is Some <==> keypair_decodes(bytes@),
        r matches Some(v) ==> v@ == keypair_peer_id(bytes@),
{
    match libp2p_identity::Keypair::from_protobuf_encoding(bytes) {
        Ok(keypair) => Some(keypair.public().to_peer_id().to_base58().into_bytes()),
        Err(_) => None,
    }
}

/// Relies on `libp2p_identity::PeerId`'s `FromStr` and `to_base58`: parse
/// a peer identifier from text and give back its canonical text.  The
/// result is a deterministic function of the input.
#[verifier::external_body]
pub fn parse_peer_id(s: &Vec<u8>) -> (r: Option<Vec<u8>>)
    ensures
        r is Some <==> parsed_peer_id(s@) is Some,
        r matches Some(v) ==> parsed_peer_id(s@) matches Some(p) && v@ == p,
{
    let text = match std::str::from_utf8(s) {
        Ok(t) => t,
        Err(_) => {
            return None;
        },
    };
    match text.parse::<libp2p_identity::PeerId>() {
        Ok(id) => Some(id.to_base58().into_bytes()),
        Err(_) => None,
    }
}

/// What `load_or_generate` decided: the identity in use, whether it must
/// be persisted, and whether stored bytes had to be rejected.
pub struct IdentityOutcome {
    /// The encoded keypair now in use; always decodes.
    pub keypair_bytes: Vec<u8>,
    /// The keypair is fresh and the store was empty: write it back.
    pub write_back: bool,
    /// The store held bytes that did not decode; the keypair is a fresh
    /// ephemeral one and the store is left untouched, so the failure stays
    /// visible.
    pub load_failed: bool,
}

/// The identity store's decision logic.
pub struct IdentityManager;

impl IdentityManager {
    /// Decide on an identity given the stored file's bytes, if any.
    /// Stored bytes that decode are kept exactly as they are and nothing
    /// is written.  An empty store gets a fresh keypair that must be
    /// persisted.  Stored bytes that do not decode are reported as a load
    /// failure and the node degrades to a fresh ephemeral keypair; the
    /// store is not overwritten.
    pub fn load_or_generate(stored: Option<Vec<u8>>) -> (r: IdentityOutcome)
        ensures
            keypair_decodes(r.keypair_bytes@),
            match stored {
                Some(bytes) => {
                    &&& keypair_decodes(bytes@) ==> r.keypair_bytes@ == bytes@ && !r.write_back
                        && !r.load_failed
                    &&& !keypair_decodes(bytes@) ==> !r.write_back && r.load_failed
                },
                None => r.write_back && !r.load_failed,
            },
            !r.write_back && !r.load_failed ==> (stored matches Some(b) && r.keypair_bytes@
                == b@),
    {
        match stored {
            Some(bytes) => {
                if keypair_bytes_decode(&bytes) {
                    IdentityOutcome { keypair_bytes: bytes, write_back: false, load_failed: false }
                } else {
                    IdentityOutcome {
                        keypair_bytes: generate_keypair_bytes(),
                        write_back: false,
                        load_failed: true,
                    }
                }
            },
            None => IdentityOutcome {
                keypair_bytes: generate_keypair_bytes(),
                write_back: true,
                load_failed: false,
            },
        }
    }

    /// Loading twice from the same path keeps the identity: the first
    /// call leaves the store holding bytes that decode, the second call
    /// keeps such bytes as they stand, so both yield the same keypair and
    /// with it the same peer identifier.
    pub proof fn lemma_load_twice(first: IdentityOutcome, second: IdentityOutcome)
        requires
            keypair_decodes(first.keypair_bytes@),
            second.keypair_bytes@ == first.keypair_bytes@,
        ensures
            keypair_peer_id(second.keypair_bytes@) == keypair_peer_id(first.keypair_bytes@),
    {
    }
}

} // verus!
