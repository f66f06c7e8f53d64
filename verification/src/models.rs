//! The control-message bodies and the relay's per-offer record, as plain
//! values.  The embedding binary owns their JSON encoding; contracts here
//! speak about the abstract content through each type's view.

use vstd::prelude::*;

use crate::passphrase::Passphrase;
use crate::utils::AnonymousString;

verus! {

/// Abstract content of a [`FileInfo`].
pub ghost struct FileInfoModel {
    pub file_size: u64,
    pub file_name: Seq<char>,
    pub file_hash: Option<Seq<char>>,
    pub sender_host: Option<Seq<char>>,
    pub created_at: u64,
    pub sender_addr: Seq<char>,
}

/// The relay's record of one advertised file, and the reply a receiver gets
/// when it quotes the matching passphrase.
#[derive(Debug)]
pub struct FileInfo {
    /// Size of the file in bytes.
    pub file_size: u64,
    /// Name of the file as the sender offered it.
    pub file_name: String,
    /// Content hash of the file, where the sender computed one.
    pub file_hash: AnonymousString,
    /// Hostname of the sender, where it chose to share one.
    pub sender_host: AnonymousString,
    /// Milliseconds since the Unix epoch when the offer was admitted.
    pub created_at: u64,
    /// The sender's endpoint as the relay observed it, as `ip:port`.
    pub sender_addr: String,
}

impl View for FileInfo {
    type V = FileInfoModel;

    open spec fn view(&self) -> FileInfoModel {
        FileInfoModel {
            file_size: self.file_size,
            file_name: self.file_name@,
            file_hash: self.file_hash@,
            sender_host: self.sender_host@,
            created_at: self.created_at,
            sender_addr: self.sender_addr@,
        }
    }
}

impl Clone for FileInfo {
    fn clone(&self) -> (r: Self)
        ensures
            r@ == self@,
    {
        FileInfo {
            file_size: self.file_size,
            file_name: self.file_name.clone(),
            file_hash: self.file_hash.clone(),
            sender_host: self.sender_host.clone(),
            created_at: self.created_at,
            sender_addr: self.sender_addr.clone(),
        }
    }
}

/// Abstract content of a [`S2XRequestPassphraseMessage`].
pub ghost struct OfferRequestModel {
    pub file_size: u64,
    pub file_name: Seq<char>,
    pub file_hash: Option<Seq<char>>,
    pub sender_host: Option<Seq<char>>,
}

/// Sender asks the relay to admit an offer and mint a passphrase.
#[derive(Debug)]
pub struct S2XRequestPassphraseMessage {
    /// Size of the file in bytes.
    pub file_size: u64,
    /// Name of the file.
    pub file_name: String,
    /// Hash of the file, where the sender computed one.
    pub file_hash: AnonymousString,
    /// Hostname of the sender, where it chose to share one.
    pub sender_host: AnonymousString,
}

impl View for S2XRequestPassphraseMessage {
    type V = OfferRequestModel;

    open spec fn view(&self) -> OfferRequestModel {
        OfferRequestModel {
            file_size: self.file_size,
            file_name: self.file_name@,
            file_hash: self.file_hash@,
            sender_host: self.sender_host@,
        }
    }
}

/// Relay hands the freshly minted passphrase back to the sender.
#[derive(Debug)]
pub struct X2SPassphraseProvidedMessage {
    /// Passphrase under which the offer is now live.
    pub passphrase: Passphrase,
}

/// Receiver quotes a passphrase to learn the file's metadata.
#[derive(Debug)]
pub struct R2XRequestFileInfoMessage {
    /// Passphrase to look up.
    pub passphrase: Passphrase,
}

/// Receiver claims the offer and asks the relay to broker the connection.
#[derive(Debug)]
pub struct R2XRequestSenderConnectionMessage {
    /// Passphrase of the offer being claimed.
    pub passphrase: Passphrase,
    /// The hash the receiver was told; it must match the offer's.
    pub file_hash: AnonymousString,
    /// Hostname of the receiver, where it chose to share one.
    pub receiver_host: AnonymousString,
}

/// Relay tells the sender where to reach the receiver.
#[derive(Debug)]
pub struct X2SSenderConnectToReceiverMessage {
    /// The receiver's endpoint as the relay observed it, as `ip:port`.
    pub receiver_addr: String,
    /// The receiver's self-declared label.
    pub receiver_host: AnonymousString,
}

} // verus!
