//! Magnet links for the streaming server: the BitTorrent info hash of a
//! magnet link, and its trackers.

use vstd::prelude::*;
use vstd::string::StringExecFns;

use crate::models::common::{eq_update, Loadable};
use vstd::std_specs::cmp::PartialEqSpec;
use crate::models::casting::source_parses;
use crate::models::skip_segments::providers::parses_as_url;
use crate::runtime::env::{env_error_code, env_error_message};
use crate::runtime::{EnvError, Effects};
use crate::text::{decimal, decimal_string, str_eq};
use crate::types::addon::{ExtraValue, ResourcePath};

verus! {

#[verifier::external_type_specification]
#[verifier::external_body]
pub struct ExMagnet(magnet_url::Magnet);

/// Why the info hash of a magnet link could not be had.
#[derive(Clone, PartialEq, Eq, Debug)]
pub enum BtihError {
    /// The link does not start with `magnet:?`; `magnet_url`'s message.
    NotAMagnet(String),
    /// The exact topic has a hash but no hash type.
    NoHashType,
    /// The exact topic has a hash type but no hash.
    NoHash,
    /// The exact topic is not a BitTorrent info hash.
    NotBtih,
    /// The link has no exact topic.
    NoTopic,
    /// The hash has the length of Base32 but is not valid Base32;
    /// `data_encoding`'s message.
    InvalidBase32(String),
    /// The hash, which has neither the length of Base32 nor that of
    /// hexadecimal.
    UnrecognizedHashFormat(String),
}

/// The kind of an error, one number per variant.
pub open spec fn btih_error_kind(error: BtihError) -> int {
    match error {
        BtihError::NotAMagnet(_) => 0,
        BtihError::NoHashType => 1,
        BtihError::NoHash => 2,
        BtihError::NotBtih => 3,
        BtihError::NoTopic => 4,
        BtihError::InvalidBase32(_) => 5,
        BtihError::UnrecognizedHashFormat(_) => 6,
    }
}

/// The message of an error.
pub open spec fn btih_error_text(error: BtihError) -> Seq<char> {
    match error {
        BtihError::NotAMagnet(message) => message@,
        BtihError::NoHashType => "No hash type in exact topic parameter found"@,
        BtihError::NoHash => "No hash in exact topic parameter found"@,
        BtihError::NotBtih => "No BTIH hash type in exact topic parameter found"@,
        BtihError::NoTopic => "No hash and no hash type provided"@,
        BtihError::InvalidBase32(message) => message@,
        BtihError::UnrecognizedHashFormat(hash) => "Unrecognized hash format: "@ + hash@,
    }
}

impl BtihError {
    /// The message of the error.
    pub fn to_display_string(&self) -> (r: String)
        ensures
            r@ == btih_error_text(*self),
    {
        match self {
            BtihError::NotAMagnet(message) => message.clone(),
            BtihError::NoHashType => String::from_str("No hash type in exact topic parameter found"),
            BtihError::NoHash => String::from_str("No hash in exact topic parameter found"),
            BtihError::NotBtih => String::from_str("No BTIH hash type in exact topic parameter found"),
            BtihError::NoTopic => String::from_str("No hash and no hash type provided"),
            BtihError::InvalidBase32(message) => message.clone(),
            BtihError::UnrecognizedHashFormat(hash) => {
                let mut s = String::from_str("Unrecognized hash format: ");
                s.append(hash.as_str());
                s
            },
        }
    }
}

/// Names what `magnet_url` reads from a magnet link: the hash type and the
/// hash of its exact topic (`xt=urn:<type>:<hash>`), where it has one, and
/// its trackers. It is a function of the link alone.
pub uninterp spec fn magnet_parts(link: Seq<char>) -> (Option<Seq<char>>, Option<Seq<char>>, Seq<Seq<char>>);

/// Names the bytes that the Base32 encoding of `data_encoding` decodes, none
/// where the input is not valid Base32. It is a function of the input alone.
pub uninterp spec fn base32_decoded(input: Seq<u8>) -> Option<Seq<u8>>;

/// Names the text without its leading and trailing Unicode white space. It
/// is a function of the text alone.
pub uninterp spec fn trimmed(text: Seq<char>) -> Seq<char>;

/// The prefix of every magnet link.
pub open spec fn magnet_prefix() -> Seq<char> {
    seq!['m', 'a', 'g', 'n', 'e', 't', ':', '?']
}

pub open spec fn has_magnet_prefix(link: Seq<char>) -> bool {
    link.len() >= 8 && link.take(8) == magnet_prefix()
}

pub open spec fn optional_text(value: Option<String>) -> Option<Seq<char>> {
    match value {
        Some(s) => Some(s@),
        None => None,
    }
}

pub open spec fn texts_view(values: Seq<String>) -> Seq<Seq<char>> {
    values.map_values(|s: String| s@)
}

/// Calls `Magnet::new` and, where it gives a magnet, reads its hash type,
/// hash and trackers; its error is handed out as its message. The contract
/// claims that a magnet comes exactly for a link that starts with
/// `magnet:?` (as the source of `Magnet::new` checks), and that what is read
/// is [`magnet_parts`] of the link; it says nothing of the message.
#[verifier::external_body]
fn magnet_new(link: &str) -> (r: Result<(magnet_url::Magnet, Option<String>, Option<String>, Vec<String>), String>)
    ensures
        r is Ok <==> has_magnet_prefix(link@),
        r matches Ok((_, hash_type, hash, trackers)) ==> (
            optional_text(hash_type),
            optional_text(hash),
            texts_view(trackers@),
        ) == magnet_parts(link@),
{
    let magnet = magnet_url::Magnet::new(link).map_err(|err| err.to_string())?;
    let hash_type = magnet.hash_type().map(|t| t.to_string());
    let hash = magnet.hash().map(|h| h.to_string());
    let trackers = magnet.trackers().to_vec();
    Ok((magnet, hash_type, hash, trackers))
}

/// Calls `BASE32.decode` of `data_encoding`; its error is handed out as its
/// message. The contract names the decoded bytes and says nothing of the
/// message.
#[verifier::external_body]
fn base32_decode(input: &[u8]) -> (r: Result<Vec<u8>, String>)
    ensures
        match r {
            Ok(bytes) => base32_decoded(input@) == Some(bytes@),
            Err(_) => base32_decoded(input@) is None,
        },
{
    data_encoding::BASE32.decode(input).map_err(|err| err.to_string())
}

/// Whether a byte is an ASCII hexadecimal digit.
pub open spec fn is_hex_digit(b: u8) -> bool {
    (48 <= b <= 57) || (65 <= b <= 70) || (97 <= b <= 102)
}

/// The value of an ASCII hexadecimal digit.
pub open spec fn hex_value(b: u8) -> int {
    if 48 <= b <= 57 {
        b - 48
    } else if 65 <= b <= 70 {
        b - 55
    } else {
        b - 87
    }
}

pub open spec fn all_hex(bytes: Seq<u8>) -> bool {
    forall|i: int| 0 <= i < bytes.len() ==> is_hex_digit(#[trigger] bytes[i])
}

/// The bytes that hexadecimal digits stand for, two digits a byte, the high
/// half first.
pub open spec fn hex_bytes(digits: Seq<u8>) -> Seq<u8> {
    Seq::new(
        digits.len() / 2,
        |i: int| (hex_value(digits[2 * i]) * 16 + hex_value(digits[2 * i + 1])) as u8,
    )
}

/// Calls `hex::decode`. The contract claims what its source shows: an input
/// of even length made of hexadecimal digits (in either case) gives a byte
/// per two digits, the first digit the high half; any other input fails.
#[verifier::external_body]
fn hex_decode(input: &[u8]) -> (r: Option<Vec<u8>>)
    ensures
        r is Some <==> (input@.len() % 2 == 0 && all_hex(input@)),
        r matches Some(bytes) ==> bytes@ == hex_bytes(input@),
{
    hex::decode(input).ok()
}

/// Calls `str::trim`; the contract names the result.
#[verifier::external_body]
fn trim_text(text: &str) -> (r: &str)
    ensures
        r@ == trimmed(text@),
{
    text.trim()
}

/// The hash of the exact topic of a magnet link, without surrounding white
/// space.
pub open spec fn btih_hash_text(link: Seq<char>) -> Seq<char> {
    match magnet_parts(link).1 {
        Some(hash) => trimmed(hash),
        None => Seq::empty(),
    }
}

/// The BitTorrent info hash of a magnet link, or the kind of the error (see
/// [`btih_error_kind`]): its exact topic must be of type `btih`; the hash,
/// without surrounding white space, is read as Base32 when its UTF-8 form
/// has 32 or 52 bytes, and as hexadecimal when it has 40 or 64 bytes that
/// are all hexadecimal digits.
pub open spec fn btih_of(link: Seq<char>) -> Result<Seq<u8>, int> {
    if !has_magnet_prefix(link) {
        Err(0)
    } else {
        match (magnet_parts(link).0, magnet_parts(link).1) {
            (None, Some(_)) => Err(1),
            (Some(_), None) => Err(2),
            (None, None) => Err(4),
            (Some(hash_type), Some(hash)) => if hash_type != seq!['b', 't', 'i', 'h'] {
                Err(3)
            } else {
                let bytes = vstd::utf8::encode_utf8(trimmed(hash));
                if bytes.len() == 32 || bytes.len() == 52 {
                    match base32_decoded(bytes) {
                        Some(decoded) => Ok(decoded),
                        None => Err(5),
                    }
                } else if (bytes.len() == 40 || bytes.len() == 64) && all_hex(bytes) {
                    Ok(hex_bytes(bytes))
                } else {
                    Err(6)
                }
            },
        }
    }
}

/// `e` is the error that [`btih_of`] gives for the link: of its kind, and an
/// unrecognized hash carries the hash.
pub open spec fn is_btih_error(link: Seq<char>, e: BtihError) -> bool {
    &&& btih_of(link) == Err::<Seq<u8>, int>(btih_error_kind(e))
    &&& (e matches BtihError::UnrecognizedHashFormat(hash) ==> hash@ == btih_hash_text(link))
}

fn hex_digits(bytes: &[u8]) -> (r: bool)
    ensures
        r == all_hex(bytes@),
{
    let mut i: usize = 0;
    while i < bytes.len()
        invariant
            i <= bytes.len(),
            forall|j: int| 0 <= j < i ==> is_hex_digit(#[trigger] bytes@[j]),
        decreases bytes.len() - i,
    {
        let b = bytes[i];
        if !((48 <= b && b <= 57) || (65 <= b && b <= 70) || (97 <= b && b <= 102)) {
            return false;
        }
        i = i + 1;
    }
    true
}

/// The parsed magnet, the bytes of its info hash (see [`btih_of`]) and its
/// trackers.
fn decode_btih_parts(link: &str) -> (r: Result<(magnet_url::Magnet, Vec<u8>, Vec<String>), BtihError>)
    ensures
        match r {
            Ok((_, bytes, trackers)) => {
                &&& btih_of(link@) == Ok::<Seq<u8>, int>(bytes@)
                &&& texts_view(trackers@) == magnet_parts(link@).2
            },
            Err(e) => is_btih_error(link@, e),
        },
{
    let (magnet, hash_type, hash, trackers) = match magnet_new(link) {
        Ok(parts) => parts,
        Err(message) => {
            return Err(BtihError::NotAMagnet(message));
        },
    };
    let hash = match (hash_type, hash) {
        (None, Some(_)) => {
            return Err(BtihError::NoHashType);
        },
        (Some(_), None) => {
            return Err(BtihError::NoHash);
        },
        (None, None) => {
            return Err(BtihError::NoTopic);
        },
        (Some(hash_type), Some(hash)) => {
            proof {
                reveal_strlit("btih");
                assert("btih"@ =~= seq!['b', 't', 'i', 'h']);
            }
            if !str_eq(hash_type.as_str(), "btih") {
                return Err(BtihError::NotBtih);
            }
            hash
        },
    };
    let hash_str = trim_text(hash.as_str());
    let bytes = hash_str.as_bytes();
    let n = bytes.len();
    if n == 32 || n == 52 {
        match base32_decode(bytes) {
            Ok(decoded) => Ok((magnet, decoded, trackers)),
            Err(message) => Err(BtihError::InvalidBase32(message)),
        }
    } else if (n == 40 || n == 64) && hex_digits(bytes) {
        match hex_decode(bytes) {
            Some(decoded) => Ok((magnet, decoded, trackers)),
            None => Err(BtihError::UnrecognizedHashFormat(hash_str.to_string())),
        }
    } else {
        Err(BtihError::UnrecognizedHashFormat(hash_str.to_string()))
    }
}

/// Decodes the BitTorrent info hash of a magnet link into its bytes (see
/// [`btih_of`]), with the parsed magnet.
pub fn decode_btih(link: &str) -> (r: Result<(magnet_url::Magnet, Vec<u8>), BtihError>)
    ensures
        match r {
            Ok((_, bytes)) => btih_of(link@) == Ok::<Seq<u8>, int>(bytes@),
            Err(e) => is_btih_error(link@, e),
        },
{
    match decode_btih_parts(link) {
        Ok((magnet, bytes, _trackers)) => Ok((magnet, bytes)),
        Err(e) => Err(e),
    }
}

/// The info hash and the trackers of a magnet link: none unless the link
/// has a BitTorrent info hash of 20 bytes.
pub fn parse_magnet(link: &str) -> (r: Option<(Vec<u8>, Vec<String>)>)
    ensures
        match r {
            Some((hash, trackers)) => {
                &&& btih_of(link@) == Ok::<Seq<u8>, int>(hash@)
                &&& hash@.len() == 20
                &&& texts_view(trackers@) == magnet_parts(link@).2
            },
            None => !(btih_of(link@) matches Ok(bytes) && bytes.len() == 20),
        },
{
    match decode_btih_parts(link) {
        Ok((_magnet, hash, trackers)) => {
            if hash.len() != 20 {
                return None;
            }
            Some((hash, trackers))
        },
        Err(_) => None,
    }
}

/// The lowercase hexadecimal digits of the bytes, two per byte, the high
/// half first.
pub open spec fn hex_text(bytes: Seq<u8>) -> Seq<char>
    decreases bytes.len(),
{
    if bytes.len() == 0 {
        Seq::empty()
    } else {
        let b = bytes.last();
        hex_text(bytes.drop_last()) + seq!["0123456789abcdef"@[(b / 16) as int], "0123456789abcdef"@[(b % 16) as int]]
    }
}

/// Calls `hex::encode`. The contract claims what its source shows: two
/// lowercase hexadecimal digits per byte, the high half first.
#[verifier::external_body]
fn hex_encode(bytes: &[u8]) -> (r: String)
    ensures
        r@ == hex_text(bytes@),
{
    hex::encode(bytes)
}

/// The torrent being created by the streaming server: its info hash and
/// the path of the meta item it becomes once created.
pub type Torrent = Option<(Vec<u8>, Loadable<ResourcePath, EnvError>)>;

/// The meta item path of a created torrent: `meta` of type `other` with
/// the id `bt:` and the info hash in hexadecimal.
pub open spec fn torrent_path(info_hash: Seq<u8>) -> ResourceRequestPathView {
    ("meta"@, "other"@, "bt:"@ + hex_text(info_hash), Seq::empty())
}

/// A resource path as plain values: resource, type, id and the extra
/// properties as name and value.
pub type ResourceRequestPathView = (Seq<char>, Seq<char>, Seq<char>, Seq<(Seq<char>, Seq<char>)>);

pub open spec fn path_view(path: ResourcePath) -> ResourceRequestPathView {
    (path.resource@, path.content_type@, path.id@, path.extra@.map_values(|e: ExtraValue| (e.name@, e.value@)))
}

/// A torrent as plain values.
pub open spec fn torrent_view(torrent: Torrent) -> Option<(Seq<u8>, Loadable<ResourceRequestPathView, EnvError>)> {
    match torrent {
        Some((hash, loadable)) => Some(
            (
                hash@,
                match loadable {
                    Loadable::Loading => Loadable::Loading,
                    Loadable::Ready(path) => Loadable::Ready(path_view(path)),
                    Loadable::Error(e) => Loadable::Error(e),
                },
            ),
        ),
        None => None,
    }
}

/// What creating a torrent asks for: the streaming server at the
/// transport URL creates the torrent of the info hash with the trackers;
/// the magnet link was parsed; or it could not be, with the error.
pub enum TorrentEffect {
    CreateMagnet { transport_url: String, info_hash: Vec<u8>, announce: Vec<String> },
    MagnetParsed(String),
    MagnetError(EnvError, String),
}

/// The info hash of a magnet link that the streaming server can use: one
/// of 20 bytes.
pub open spec fn usable_hash(link: Seq<char>) -> Option<Seq<u8>> {
    match btih_of(link) {
        Ok(bytes) => if bytes.len() == 20 {
            Some(bytes)
        } else {
            None
        },
        Err(_) => None,
    }
}

fn is_loading_torrent(torrent: &Torrent) -> (r: bool)
    ensures
        r == (*torrent matches Some((_, l)) && l is Loading),
{
    match torrent {
        Some((_, Loadable::Loading)) => true,
        _ => false,
    }
}

fn same_bytes(a: &[u8], b: &[u8]) -> (r: bool)
    ensures
        r == (a@ == b@),
{
    if a.len() != b.len() {
        return false;
    }
    let mut i: usize = 0;
    while i < a.len()
        invariant
            i <= a.len(),
            a.len() == b.len(),
            forall|j: int| 0 <= j < i ==> a@[j] == b@[j],
        decreases a.len() - i,
    {
        if a[i] != b[i] {
            return false;
        }
        i = i + 1;
    }
    assert(a@ =~= b@);
    true
}

/// Creating a torrent from a magnet link. Where the link has a usable info
/// hash, the torrent of that hash starts loading and the streaming server
/// at `transport_url` is asked to create it with the link's trackers, and
/// the parsed link is told; otherwise there is no torrent and the error is
/// told. The model has changed exactly when the torrent did.
pub fn create_torrent_from_magnet(torrent: &mut Torrent, transport_url: &str, magnet: &str) -> (r: Effects<
    TorrentEffect,
>)
    ensures
        match usable_hash(magnet@) {
            Some(hash) => {
                &&& torrent_view(*final(torrent)) == Some((hash, Loadable::<ResourceRequestPathView, EnvError>::Loading))
                &&& r.effect_list().len() == 2
                &&& (r.effect_list()[0] matches TorrentEffect::CreateMagnet { transport_url: u, info_hash: h, announce: a }
                    && u@ == transport_url@ && h@ == hash && texts_view(a@) == magnet_parts(magnet@).2)
                &&& (r.effect_list()[1] matches TorrentEffect::MagnetParsed(m) && m@ == magnet@)
            },
            None => {
                &&& *final(torrent) is None
                &&& r.effect_list().len() == 1
                &&& (r.effect_list()[0] matches TorrentEffect::MagnetError(e, m) && (e matches EnvError::Other(t) && t@ == "Failed to parse magnet url"@) && m@ == magnet@)
            },
        },
        r.has_changed == (torrent_view(*old(torrent)) != torrent_view(*final(torrent))),
{
    match parse_magnet(magnet) {
        Some((hash, announce)) => {
            let changed = match &*torrent {
                Some((h, Loadable::Loading)) => !same_bytes(h.as_slice(), hash.as_slice()),
                _ => true,
            };
            let copy = hash.clone();
            *torrent = Some((copy, Loadable::Loading));
            let mut effects: Vec<TorrentEffect> = Vec::new();
            effects.push(
                TorrentEffect::CreateMagnet { transport_url: transport_url.to_string(), info_hash: hash, announce },
            );
            effects.push(TorrentEffect::MagnetParsed(magnet.to_string()));
            Effects { effects, has_changed: changed }
        },
        None => {
            let changed = torrent.is_some();
            *torrent = None;
            let error = EnvError::Other("Failed to parse magnet url".to_string());
            proof {
                reveal_strlit("Failed to parse magnet url");
            }
            Effects { effects: vec![TorrentEffect::MagnetError(error, magnet.to_string())], has_changed: changed }
        },
    }
}

/// The answer of the streaming server to creating the torrent of
/// `info_hash`: taken only by the torrent of that hash while it is loading,
/// which becomes its meta item path, or the error.
pub fn torrent_created(torrent: &mut Torrent, info_hash: &[u8], result: Result<(), EnvError>) -> (r: Effects<
    TorrentEffect,
>)
    ensures
        r.effect_list().len() == 0,
        match torrent_view(*old(torrent)) {
            Some((hash, Loadable::Loading)) => if hash == info_hash@ {
                &&& torrent_view(*final(torrent)) == Some(
                    (
                        hash,
                        match result {
                            Ok(_) => Loadable::Ready(torrent_path(hash)),
                            Err(e) => Loadable::<ResourceRequestPathView, EnvError>::Error(e),
                        },
                    ),
                )
                &&& r.has_changed
            } else {
                *final(torrent) == *old(torrent) && !r.has_changed
            },
            _ => *final(torrent) == *old(torrent) && !r.has_changed,
        },
{
    let taken = match &*torrent {
        Some((h, Loadable::Loading)) => same_bytes(h.as_slice(), info_hash),
        _ => false,
    };
    if !taken {
        return Effects::none().unchanged();
    }
    let hash = match &*torrent {
        Some((h, _)) => h.clone(),
        None => Vec::new(),
    };
    let loadable = match result {
        Ok(_) => {
            let digits = hex_encode(hash.as_slice());
            let mut id = String::from_str("bt:");
            id.append(digits.as_str());
            let path = ResourcePath {
                resource: "meta".to_string(),
                content_type: "other".to_string(),
                id,
                extra: Vec::new(),
            };
            proof {
                reveal_strlit("meta");
                reveal_strlit("other");
                reveal_strlit("bt:");
                assert(path.extra@.map_values(|e: ExtraValue| (e.name@, e.value@)) =~= Seq::<(Seq<char>, Seq<char>)>::empty());
            }
            Loadable::Ready(path)
        },
        Err(e) => Loadable::Error(e),
    };
    *torrent = Some((hash, loadable));
    Effects::none()
}

/// A device that the streaming server can play on: its id, name and type
/// (such as `external`).
#[derive(PartialEq, Eq, Debug)]
pub struct PlaybackDevice {
    pub id: String,
    pub name: String,
    pub device_type: String,
}

pub open spec fn device_view(device: PlaybackDevice) -> (Seq<char>, Seq<char>, Seq<char>) {
    (device.id@, device.name@, device.device_type@)
}

pub open spec fn devices_view(devices: Seq<PlaybackDevice>) -> Seq<(Seq<char>, Seq<char>, Seq<char>)> {
    devices.map_values(|d: PlaybackDevice| device_view(d))
}

/// An environment error as plain values: its code and its message.
pub open spec fn env_error_view(error: EnvError) -> (u32, Seq<char>) {
    (env_error_code(error), env_error_message(error))
}

/// The playback devices as plain values.
pub open spec fn devices_loadable_view(devices: Loadable<Vec<PlaybackDevice>, EnvError>) -> Loadable<
    Seq<(Seq<char>, Seq<char>, Seq<char>)>,
    (u32, Seq<char>),
> {
    match devices {
        Loadable::Loading => Loadable::Loading,
        Loadable::Ready(d) => Loadable::Ready(devices_view(d@)),
        Loadable::Error(e) => Loadable::Error(env_error_view(e)),
    }
}

/// The playback devices of the streaming server at the transport URL: the
/// devices, and the generation of the latest request for them (only its
/// answer is taken).
pub struct PlaybackDevices {
    pub transport_url: String,
    pub devices: Loadable<Vec<PlaybackDevice>, EnvError>,
    pub generation: u64,
}

/// Playing a source on a device, from a time (milliseconds).
pub struct PlayOnDeviceArgs {
    pub device: String,
    pub source: String,
    pub time: Option<u64>,
}

/// What the playback devices ask for: the devices of the streaming server
/// at the URL, for a generation; playing on a device with the server at
/// the URL; telling that a device plays.
pub enum DevicesEffect {
    GetPlaybackDevices(String, u64),
    PlayOnDevice(String, PlayOnDeviceArgs),
    PlayingOnDevice(String),
}

fn same_devices(a: &Vec<PlaybackDevice>, b: &Vec<PlaybackDevice>) -> (r: bool)
    ensures
        r == (devices_view(a@) == devices_view(b@)),
{
    if a.len() != b.len() {
        assert(devices_view(a@).len() != devices_view(b@).len());
        return false;
    }
    let mut i: usize = 0;
    while i < a.len()
        invariant
            i <= a.len(),
            a.len() == b.len(),
            forall|j: int| 0 <= j < i ==> device_view(a@[j]) == #[trigger] device_view(b@[j]),
        decreases a.len() - i,
    {
        if !(str_eq(a[i].id.as_str(), b[i].id.as_str()) && str_eq(a[i].name.as_str(), b[i].name.as_str())
            && str_eq(a[i].device_type.as_str(), b[i].device_type.as_str())) {
            assert(devices_view(a@)[i as int] != devices_view(b@)[i as int]);
            return false;
        }
        i = i + 1;
    }
    assert(devices_view(a@) =~= devices_view(b@));
    true
}

fn has_device(devices: &Vec<PlaybackDevice>, id: &str) -> (r: bool)
    ensures
        r == exists|i: int| 0 <= i < devices@.len() && (#[trigger] devices@[i]).id@ == id@,
{
    let mut i: usize = 0;
    while i < devices.len()
        invariant
            i <= devices.len(),
            forall|j: int| 0 <= j < i ==> (#[trigger] devices@[j]).id@ != id@,
        decreases devices.len() - i,
    {
        if str_eq(devices[i].id.as_str(), id) {
            return true;
        }
        i = i + 1;
    }
    false
}

/// Asks again for the playback devices: a new generation, whose answer
/// alone is taken.
pub fn refresh_playback_devices(state: &mut PlaybackDevices) -> (r: Effects<DevicesEffect>)
    requires
        old(state).generation < u64::MAX,
    ensures
        final(state).generation == old(state).generation + 1,
        final(state).devices == old(state).devices,
        final(state).transport_url == old(state).transport_url,
        r.effect_list().len() == 1,
        r.effect_list()[0] matches DevicesEffect::GetPlaybackDevices(u, g) && u@ == old(state).transport_url@ && g
            == final(state).generation,
        !r.has_changed,
{
    state.generation = state.generation + 1;
    Effects::one(DevicesEffect::GetPlaybackDevices(state.transport_url.clone(), state.generation)).unchanged()
}

/// The answer to a request for the playback devices of the streaming
/// server at `url`, for `generation`: taken only for the current URL and
/// generation. The devices become ready; an error is kept only while they
/// are loading. The model has changed exactly when the devices did.
pub fn playback_devices_result(
    state: &mut PlaybackDevices,
    url: &str,
    generation: u64,
    result: Result<Vec<PlaybackDevice>, EnvError>,
) -> (r: Effects<DevicesEffect>)
    ensures
        r.effect_list().len() == 0,
        final(state).generation == old(state).generation,
        final(state).transport_url == old(state).transport_url,
        devices_loadable_view(final(state).devices) == if url@ == old(state).transport_url@ && generation
            == old(state).generation {
            match result {
                Ok(devices) => Loadable::Ready(devices_view(devices@)),
                Err(e) => if old(state).devices is Loading {
                    Loadable::Error(env_error_view(e))
                } else {
                    devices_loadable_view(old(state).devices)
                },
            }
        } else {
            devices_loadable_view(old(state).devices)
        },
        r.has_changed == (devices_loadable_view(final(state).devices) != devices_loadable_view(old(state).devices)),
{
    if !(str_eq(state.transport_url.as_str(), url) && state.generation == generation) {
        return Effects::none().unchanged();
    }
    match result {
        Ok(devices) => {
            let same = match &state.devices {
                Loadable::Ready(current) => same_devices(current, &devices),
                _ => false,
            };
            if same {
                Effects::none().unchanged()
            } else {
                state.devices = Loadable::Ready(devices);
                Effects::none()
            }
        },
        Err(e) => {
            if state.devices.is_loading() {
                state.devices = Loadable::Error(e);
                Effects::none()
            } else {
                Effects::none().unchanged()
            }
        },
    }
}

/// Playing on a device: asked of the streaming server only for a source
/// that is a URL and a device among the ready playback devices.
pub fn play_on_device(state: &PlaybackDevices, args: PlayOnDeviceArgs) -> (r: Effects<DevicesEffect>)
    ensures
        !r.has_changed,
        (parses_as_url(args.source@) && (state.devices matches Loadable::Ready(devices) && exists|i: int|
            0 <= i < devices@.len() && (#[trigger] devices@[i]).id@ == args.device@)) ==> r.effect_list().len() == 1
            && (r.effect_list()[0] matches DevicesEffect::PlayOnDevice(u, a) && u@ == state.transport_url@ && a
            == args),
        !(parses_as_url(args.source@) && (state.devices matches Loadable::Ready(devices) && exists|i: int|
            0 <= i < devices@.len() && (#[trigger] devices@[i]).id@ == args.device@)) ==> r.effect_list().len()
            == 0,
{
    if !source_parses(args.source.as_str()) {
        return Effects::none().unchanged();
    }
    match &state.devices {
        Loadable::Ready(devices) => {
            if has_device(devices, args.device.as_str()) {
                Effects::one(DevicesEffect::PlayOnDevice(state.transport_url.clone(), args)).unchanged()
            } else {
                Effects::none().unchanged()
            }
        },
        _ => Effects::none().unchanged(),
    }
}

/// The answer to playing on `device`: a success tells that it plays.
pub fn play_on_device_result(device: &str, succeeded: bool) -> (r: Effects<DevicesEffect>)
    ensures
        !r.has_changed,
        succeeded ==> r.effect_list().len() == 1 && (r.effect_list()[0] matches DevicesEffect::PlayingOnDevice(
            d,
        ) && d@ == device@),
        !succeeded ==> r.effect_list().len() == 0,
{
    if succeeded {
        Effects::one(DevicesEffect::PlayingOnDevice(device.to_string())).unchanged()
    } else {
        Effects::none().unchanged()
    }
}

/// Names what `url::Url::parse` gives for a text, serialized by
/// `Url::as_str`: `None` where it rejects the text. It is a function of the
/// text alone.
pub uninterp spec fn parsed_url(text: Seq<char>) -> Option<Seq<char>>;

/// Calls `url::Url::parse` and serializes the URL it gives; the contract
/// names the result and claims that one is given exactly where the text
/// parses.
#[verifier::external_body]
fn parse_url(text: &str) -> (r: Option<String>)
    ensures
        optional_text(r) == parsed_url(text@),
        (r is Some) == parses_as_url(text@),
{
    match url::Url::parse(text) {
        Ok(url) => Some(url.as_str().to_string()),
        Err(_) => None,
    }
}

/// What keeping the remote URL asks for: the HTTPS endpoint of the
/// streaming server at the transport URL, for the session key and the
/// address.
pub enum RemoteUrlEffect {
    GetHttps { transport_url: String, auth_key: String, ip_address: String },
}

/// The HTTPS address of a domain and port.
pub open spec fn https_text(domain: Seq<char>, port: u16) -> Seq<char> {
    "https://"@ + domain + ":"@ + decimal(port as nat)
}

/// Keeping the remote URL after the settings: where the settings name an
/// address for remote HTTPS and the user is signed in, the HTTPS endpoint
/// is asked for; otherwise there is no remote URL. The model has changed
/// exactly when a remote URL was dropped.
pub fn remote_url_update(
    remote_url: &mut Option<String>,
    transport_url: &str,
    remote_https: Option<&str>,
    auth_key: Option<&str>,
) -> (r: Effects<RemoteUrlEffect>)
    ensures
        match (remote_https, auth_key) {
            (Some(ip), Some(key)) if ip@.len() > 0 => {
                &&& *final(remote_url) == *old(remote_url)
                &&& r.effect_list().len() == 1
                &&& (r.effect_list()[0] matches RemoteUrlEffect::GetHttps { transport_url: u, auth_key: k, ip_address: a }
                    && u@ == transport_url@ && k@ == key@ && a@ == ip@)
                &&& !r.has_changed
            },
            _ => {
                &&& *final(remote_url) is None
                &&& r.effect_list().len() == 0
                &&& r.has_changed == (*old(remote_url) is Some)
            },
        },
{
    match (remote_https, auth_key) {
        (Some(ip), Some(key)) => {
            if ip.unicode_len() > 0 {
                return Effects::one(
                    RemoteUrlEffect::GetHttps {
                        transport_url: transport_url.to_string(),
                        auth_key: key.to_string(),
                        ip_address: ip.to_string(),
                    },
                ).unchanged();
            }
        },
        _ => {},
    }
    let had = remote_url.is_some();
    *remote_url = None;
    if had {
        Effects::none()
    } else {
        Effects::none().unchanged()
    }
}

/// The answer of the streaming server at `url` with its HTTPS endpoint
/// (domain and port, or none where it failed): taken only for the selected
/// transport URL, where the remote URL becomes the HTTPS address as the
/// URL parser gives it (none where it does not parse). The model has
/// changed exactly when the remote URL did.
pub fn https_endpoint_result(
    remote_url: &mut Option<String>,
    transport_url: &str,
    url: &str,
    result: Option<(&str, u16)>,
) -> (r: Effects<RemoteUrlEffect>)
    ensures
        r.effect_list().len() == 0,
        match result {
            Some((domain, port)) => if url@ == transport_url@ {
                optional_text(*final(remote_url)) == parsed_url(https_text(domain@, port))
            } else {
                *final(remote_url) == *old(remote_url)
            },
            None => *final(remote_url) == *old(remote_url),
        },
        r.has_changed == (optional_text(*old(remote_url)) != optional_text(*final(remote_url))),
{
    if !str_eq(url, transport_url) {
        return Effects::none().unchanged();
    }
    match result {
        Some((domain, port)) => {
            let mut text = String::from_str("https://");
            text.append(domain);
            text.append(":");
            let digits = decimal_string(port as u64);
            text.append(digits.as_str());
            proof {
                reveal_strlit("https://");
                reveal_strlit(":");
            }
            assert(text@ =~= https_text(domain@, port));
            let next = parse_url(text.as_str());
            let same = match (&*remote_url, &next) {
                (Some(a), Some(b)) => str_eq(a.as_str(), b.as_str()),
                (None, None) => true,
                _ => false,
            };
            *remote_url = next;
            if same {
                Effects::none().unchanged()
            } else {
                Effects::none()
            }
        },
        None => Effects::none().unchanged(),
    }
}

/// The statistics asked of the streaming server: the torrent by its info
/// hash, and the file in it.
pub struct StatisticsRequest {
    pub info_hash: String,
    pub file_idx: u16,
}

pub open spec fn statistics_request_view(r: StatisticsRequest) -> (Seq<char>, u16) {
    (r.info_hash@, r.file_idx)
}

pub open spec fn selected_statistics_view(r: Option<StatisticsRequest>) -> Option<(Seq<char>, u16)> {
    match r {
        Some(s) => Some(statistics_request_view(s)),
        None => None,
    }
}

fn copy_statistics_request(r: &StatisticsRequest) -> (c: StatisticsRequest)
    ensures
        statistics_request_view(c) == statistics_request_view(*r),
{
    StatisticsRequest { info_hash: r.info_hash.clone(), file_idx: r.file_idx }
}

/// The statistics of a torrent being played: the request selected and the
/// statistics loaded for it (`S` holds them as the server sends them).
pub struct TorrentStatistics<S> {
    pub selected: Option<StatisticsRequest>,
    pub statistics: Option<Loadable<S, EnvError>>,
}

/// What asking for statistics asks for: the statistics of the streaming
/// server at the transport URL for the request.
pub enum StatisticsEffect {
    GetStatistics(String, StatisticsRequest),
}

/// Asking for the statistics of a torrent: the request becomes the selected
/// one, the statistics start loading where there were none yet, and the
/// streaming server at `transport_url` is asked. The model has changed
/// where the selected request or the statistics did.
pub fn get_statistics<S>(state: &mut TorrentStatistics<S>, transport_url: &str, request: &StatisticsRequest) -> (r:
    Effects<StatisticsEffect>)
    ensures
        selected_statistics_view(final(state).selected) == Some(statistics_request_view(*request)),
        final(state).statistics == if old(state).statistics is None {
            Some(Loadable::<S, EnvError>::Loading)
        } else {
            old(state).statistics
        },
        r.effect_list().len() == 1,
        r.effect_list()[0] matches StatisticsEffect::GetStatistics(u, q) && u@ == transport_url@
            && statistics_request_view(q) == statistics_request_view(*request),
        r.has_changed == (selected_statistics_view(old(state).selected) != Some(statistics_request_view(*request))
            || old(state).statistics is None),
{
    let same = match &state.selected {
        Some(s) => str_eq(s.info_hash.as_str(), request.info_hash.as_str()) && s.file_idx == request.file_idx,
        None => false,
    };
    state.selected = Some(copy_statistics_request(request));
    let started = state.statistics.is_none();
    if started {
        state.statistics = Some(Loadable::Loading);
    }
    let effects = Effects::one(
        StatisticsEffect::GetStatistics(transport_url.to_string(), copy_statistics_request(request)),
    );
    if !same || started {
        effects
    } else {
        effects.unchanged()
    }
}

/// Whether an answer with statistics is taken: it comes from the selected
/// transport URL for the selected request.
pub open spec fn statistics_taken(
    selected: Option<StatisticsRequest>,
    transport_url: Seq<char>,
    url: Seq<char>,
    request: StatisticsRequest,
) -> bool {
    url == transport_url && selected_statistics_view(selected) == Some(statistics_request_view(request))
}

/// The answer of the streaming server at `url` with the statistics for
/// `request`: taken only for the selected transport URL and request. New
/// statistics become loaded and an error is kept, where they differ from
/// the current ones as `S`'s equality says; none (the whole stream was
/// loaded) leaves them as they are.
pub fn statistics_result<S: PartialEq>(
    state: &mut TorrentStatistics<S>,
    transport_url: &str,
    url: &str,
    request: &StatisticsRequest,
    result: Result<Option<S>, EnvError>,
) -> (r: Effects<StatisticsEffect>)
    ensures
        r.effect_list().len() == 0,
        final(state).selected == old(state).selected,
        !r.has_changed ==> final(state).statistics == old(state).statistics,
        r.has_changed ==> statistics_taken(old(state).selected, transport_url@, url@, *request) && match result {
            Ok(Some(s)) => final(state).statistics == Some(Loadable::<S, EnvError>::Ready(s)),
            Ok(None) => false,
            Err(e) => final(state).statistics == Some(Loadable::<S, EnvError>::Error(e)),
        },
        statistics_taken(old(state).selected, transport_url@, url@, *request) && Option::<
            Loadable<S, EnvError>,
        >::obeys_eq_spec() ==> match result {
            Ok(Some(s)) => r.has_changed == !old(state).statistics.eq_spec(
                &Some(Loadable::<S, EnvError>::Ready(s)),
            ),
            Ok(None) => !r.has_changed,
            Err(e) => r.has_changed == !old(state).statistics.eq_spec(&Some(Loadable::<S, EnvError>::Error(e))),
        },
{
    let selected = match &state.selected {
        Some(s) => str_eq(s.info_hash.as_str(), request.info_hash.as_str()) && s.file_idx == request.file_idx,
        None => false,
    };
    if !(str_eq(url, transport_url) && selected) {
        return Effects::none().unchanged();
    }
    let next = match result {
        Ok(Some(s)) => Loadable::Ready(s),
        Ok(None) => {
            return Effects::none().unchanged();
        },
        Err(e) => Loadable::Error(e),
    };
    eq_update(&mut state.statistics, Some(next))
}

/// The answer of the streaming server at `url` with its network or device
/// information (`I` holds it as the server sends it): taken only for the
/// selected transport URL while it is loading, where it becomes loaded or
/// the error. The model has changed exactly when it was taken.
pub fn server_info_result<I, A>(
    info: &mut Loadable<I, EnvError>,
    transport_url: &str,
    url: &str,
    result: Result<I, EnvError>,
) -> (r: Effects<A>)
    ensures
        r.effect_list().len() == 0,
        r.has_changed == (url@ == transport_url@ && *old(info) is Loading),
        r.has_changed ==> *final(info) == match result {
            Ok(i) => Loadable::<I, EnvError>::Ready(i),
            Err(e) => Loadable::<I, EnvError>::Error(e),
        },
        !r.has_changed ==> *final(info) == *old(info),
{
    if !(str_eq(url, transport_url) && info.is_loading()) {
        return Effects::none().unchanged();
    }
    *info = match result {
        Ok(i) => Loadable::Ready(i),
        Err(e) => Loadable::Error(e),
    };
    Effects::none()
}

} // verus!
