//! The configuration of a device: its identity, the peers it trusts, and its
//! clock.

use vstd::prelude::*;

use crate::foreign;
use crate::ordering::VersionVector;
use crate::strmap::StrMap;
use crate::text;

verus! {

/// The only version of the configuration.
pub const CONFIG_VERSION: u16 = 1;

/// The longest device name.
pub const MAX_NAME: usize = 63;

/// A device that this one trusts.
#[derive(Debug, PartialEq, Eq)]
pub struct Peer {
    pub name: String,
    /// X25519 public key, lowercase hex.
    pub public_key: String,
}

/// Whether input sharing is on. It is off until someone turns it on, because it
/// lets peers inject input.
#[derive(Clone, Copy, Debug, PartialEq, Eq, Structural)]
pub struct CursorConfig {
    pub enabled: bool,
}

/// The configuration of a device.
#[derive(Debug, PartialEq, Eq)]
pub struct Config {
    pub version: u16,
    pub name: String,
    /// X25519 private key, lowercase hex.
    pub private_key: String,
    /// X25519 public key, lowercase hex.
    pub public_key: String,
    pub paused: bool,
    pub peers: StrMap<Peer>,
    pub cursor: CursorConfig,
    /// What this device has seen of each device. Keeps a sequence number from
    /// being used twice.
    pub clock: VersionVector,
}

/// Why a configuration is refused.
#[derive(Clone, Copy, Debug, PartialEq, Eq, Structural)]
pub enum ConfigError {
    UnsupportedVersion(u16),
    PrivateKeyNotHex,
    PrivateKeyLength,
    PublicKeyNotHex,
    PublicKeyLength,
    InvalidName,
    KeyGeneration,
}

/// Whether a text is the hexadecimal text of 32 bytes.
pub open spec fn is_key_text(text: Seq<char>) -> bool {
    foreign::is_hex(text::bytes_of(text)) && foreign::hex_bytes(text::bytes_of(text)).len() == 32
}

/// The bytes of a key written in hexadecimal.
pub open spec fn key_bytes(text: Seq<char>) -> Seq<u8> {
    foreign::hex_bytes(text::bytes_of(text))
}

/// Whether a name, already trimmed, may be the name of a device.
pub open spec fn is_device_name(name: Seq<char>) -> bool {
    &&& name.len() > 0
    &&& name.len() <= MAX_NAME
    &&& forall|i: int| 0 <= i < name.len() ==> !text::is_control(#[trigger] name[i])
}

/// The name that a device gets when it is given one, if it can have it.
pub open spec fn name_given(name: Seq<char>) -> Option<Seq<char>> {
    if is_device_name(text::trimmed(name)) {
        Some(text::trimmed(name))
    } else {
        None
    }
}

/// What a host name gives for the name of a new device: its first 63
/// characters, or a fixed name where there is none.
pub open spec fn host_name(host: Option<Seq<char>>) -> Seq<char> {
    let full = match host {
        Some(name) if name.len() > 0 => name,
        _ => "lan-cat"@,
    };
    if full.len() <= MAX_NAME {
        full
    } else {
        full.take(MAX_NAME as int)
    }
}

impl Clone for Peer {
    fn clone(&self) -> (copy: Self)
        ensures
            copy == *self,
    {
        Peer { name: self.name.clone(), public_key: self.public_key.clone() }
    }
}

impl Default for CursorConfig {
    fn default() -> (cursor: Self)
        ensures
            !cursor.enabled,
    {
        CursorConfig { enabled: false }
    }
}

impl Clone for Config {
    fn clone(&self) -> (copy: Self)
        ensures
            copy.version == self.version,
            copy.name@ == self.name@,
            copy.private_key@ == self.private_key@,
            copy.public_key@ == self.public_key@,
            copy.paused == self.paused,
            copy.peers@ == self.peers@,
            copy.cursor == self.cursor,
            copy.clock@ == self.clock@,
    {
        let peers = self.peers.clone();
        assert(peers@ =~= self.peers@);
        Config {
            version: self.version,
            name: self.name.clone(),
            private_key: self.private_key.clone(),
            public_key: self.public_key.clone(),
            paused: self.paused,
            peers,
            cursor: self.cursor,
            clock: self.clock.clone(),
        }
    }
}

/// The 32 bytes of a key, or which of the two rules its text breaks.
pub(crate) fn decode_key(key: &str, not_hex: ConfigError, length: ConfigError) -> (result: Result<
    [u8; 32],
    ConfigError,
>)
    ensures
        match result {
            Ok(bytes) => is_key_text(key@) && bytes@ == key_bytes(key@),
            Err(error) => !is_key_text(key@) && error == if foreign::is_hex(
                text::bytes_of(key@),
            ) {
                length
            } else {
                not_hex
            },
        },
{
    let bytes = match foreign::hex_decode(key) {
        Ok(bytes) => bytes,
        Err(_) => return Err(not_hex),
    };
    if bytes.len() != 32 {
        return Err(length);
    }
    let mut array: [u8; 32] = [0u8; 32];
    let mut i: usize = 0;
    while i < 32
        invariant
            i <= 32,
            bytes@.len() == 32,
            array@.len() == 32,
            forall|k: int| 0 <= k < i ==> array@[k] == bytes@[k],
        decreases 32 - i,
    {
        array[i] = bytes[i];
        i = i + 1;
    }
    assert(array@ =~= bytes@);
    Ok(array)
}

/// The name of a new device on a host.
pub fn hostname(host: Option<String>) -> (name: String)
    ensures
        name@ == host_name(
            match host {
                Some(h) => Some(h@),
                None => None,
            },
        ),
{
    let full = match host {
        Some(name) => if name.as_str().is_empty() {
            "lan-cat".to_owned()
        } else {
            name
        },
        None => "lan-cat".to_owned(),
    };
    let chars = text::chars_of(full.as_str());
    if chars.len() <= MAX_NAME {
        full
    } else {
        proof {
            assert(full@.subrange(0, MAX_NAME as int) =~= full@.take(MAX_NAME as int));
        }
        text::text_of(vstd::slice::slice_subrange(chars.as_slice(), 0, MAX_NAME))
    }
}

impl Config {
    /// Whether every field that has a rule keeps it.
    pub open spec fn is_valid(self) -> bool {
        &&& self.version == CONFIG_VERSION
        &&& is_key_text(self.private_key@)
        &&& is_key_text(self.public_key@)
    }

    /// Which rule the configuration breaks first, if it breaks any.
    pub open spec fn fault(self) -> Option<ConfigError> {
        if self.version != CONFIG_VERSION {
            Some(ConfigError::UnsupportedVersion(self.version))
        } else if !foreign::is_hex(text::bytes_of(self.private_key@)) {
            Some(ConfigError::PrivateKeyNotHex)
        } else if !is_key_text(self.private_key@) {
            Some(ConfigError::PrivateKeyLength)
        } else if !foreign::is_hex(text::bytes_of(self.public_key@)) {
            Some(ConfigError::PublicKeyNotHex)
        } else if !is_key_text(self.public_key@) {
            Some(ConfigError::PublicKeyLength)
        } else {
            None
        }
    }

    /// The configuration of a new device with a given key pair: no peers, input
    /// sharing off.
    pub fn with_keys(host: Option<String>, private: &[u8], public: &[u8]) -> (config: Self)
        ensures
            config.version == CONFIG_VERSION,
            config.name@ == host_name(
                match host {
                    Some(h) => Some(h@),
                    None => None,
                },
            ),
            config.private_key@ == foreign::hex_text(private@),
            config.public_key@ == foreign::hex_text(public@),
            key_bytes(config.private_key@) == private@,
            key_bytes(config.public_key@) == public@,
            config.is_valid() <==> private@.len() == 32 && public@.len() == 32,
            !config.paused,
            config.peers@ == Map::<Seq<char>, Peer>::empty(),
            !config.cursor.enabled,
            config.clock@ == Map::<Seq<char>, u64>::empty(),
    {
        proof {
            lemma_hex_round_trip(private@);
            lemma_hex_round_trip(public@);
        }
        Config {
            version: CONFIG_VERSION,
            name: hostname(host),
            private_key: foreign::hex_encode(private),
            public_key: foreign::hex_encode(public),
            paused: false,
            peers: StrMap::new(),
            cursor: CursorConfig::default(),
            clock: VersionVector::default(),
        }
    }

    /// The configuration of a new device with a fresh key pair. It fails where no
    /// key can be generated.
    pub fn create(host: Option<String>) -> (result: Result<Self, ConfigError>)
        ensures
            match result {
                Ok(config) => {
                    &&& config.is_valid()
                    &&& key_bytes(config.public_key@) == foreign::x25519_public(
                        key_bytes(config.private_key@),
                    )
                    &&& config.name@ == host_name(
                        match host {
                            Some(h) => Some(h@),
                            None => None,
                        },
                    )
                    &&& !config.paused
                    &&& config.peers@ == Map::<Seq<char>, Peer>::empty()
                    &&& !config.cursor.enabled
                    &&& config.clock@ == Map::<Seq<char>, u64>::empty()
                },
                Err(error) => error == ConfigError::KeyGeneration,
            },
    {
        let (private, public) = match foreign::noise_keypair() {
            Ok(pair) => pair,
            Err(_) => return Err(ConfigError::KeyGeneration),
        };
        Ok(Config::with_keys(host, private.as_slice(), public.as_slice()))
    }

    /// The private key.
    pub fn private_key_bytes(&self) -> (result: Result<[u8; 32], ConfigError>)
        ensures
            match result {
                Ok(bytes) => is_key_text(self.private_key@) && bytes@ == key_bytes(
                    self.private_key@,
                ),
                Err(error) => !is_key_text(self.private_key@) && error == if foreign::is_hex(
                    text::bytes_of(self.private_key@),
                ) {
                    ConfigError::PrivateKeyLength
                } else {
                    ConfigError::PrivateKeyNotHex
                },
            },
    {
        decode_key(
            self.private_key.as_str(),
            ConfigError::PrivateKeyNotHex,
            ConfigError::PrivateKeyLength,
        )
    }

    /// The public key.
    pub fn public_key(&self) -> (result: Result<[u8; 32], ConfigError>)
        ensures
            match result {
                Ok(bytes) => is_key_text(self.public_key@) && bytes@ == key_bytes(
                    self.public_key@,
                ),
                Err(error) => !is_key_text(self.public_key@) && error == if foreign::is_hex(
                    text::bytes_of(self.public_key@),
                ) {
                    ConfigError::PublicKeyLength
                } else {
                    ConfigError::PublicKeyNotHex
                },
            },
    {
        decode_key(
            self.public_key.as_str(),
            ConfigError::PublicKeyNotHex,
            ConfigError::PublicKeyLength,
        )
    }

    /// Renames the device. White space around the name is dropped; an empty
    /// name, one of more than 63 characters and one with control characters are
    /// refused and change nothing.
    pub fn set_name(&mut self, name: String) -> (result: Result<(), ConfigError>)
        ensures
            result matches Err(error) ==> error == ConfigError::InvalidName && *final(self) == *old(
                self,
            ),
            match name_given(name@) {
                Some(given) => result is Ok && final(self).name@ == given,
                None => result is Err,
            },
            final(self).version == old(self).version,
            final(self).private_key == old(self).private_key,
            final(self).public_key == old(self).public_key,
            final(self).paused == old(self).paused,
            final(self).peers == old(self).peers,
            final(self).cursor == old(self).cursor,
            final(self).clock == old(self).clock,
    {
        let chosen = text::trim(name.as_str());
        let chars = text::chars_of(chosen.as_str());
        if chars.len() == 0 || chars.len() > MAX_NAME {
            return Err(ConfigError::InvalidName);
        }
        let mut i: usize = 0;
        while i < chars.len()
            invariant
                i <= chars.len(),
                chars@ == chosen@,
                chosen@ == text::trimmed(name@),
                0 < chosen@.len() <= MAX_NAME,
                *self == *old(self),
                forall|k: int| 0 <= k < i ==> !text::is_control(#[trigger] chosen@[k]),
            decreases chars.len() - i,
        {
            if text::char_is_control(chars[i]) {
                assert(text::is_control(chosen@[i as int]));
                return Err(ConfigError::InvalidName);
            }
            i = i + 1;
        }
        self.name = chosen;
        Ok(())
    }

    /// Whether the configuration keeps its rules, and which it breaks first.
    pub fn validate(&self) -> (result: Result<(), ConfigError>)
        ensures
            result is Ok <==> self.is_valid(),
            result == match self.fault() {
                Some(error) => Err::<(), ConfigError>(error),
                None => Ok(()),
            },
    {
        if self.version != CONFIG_VERSION {
            return Err(ConfigError::UnsupportedVersion(self.version));
        }
        if let Err(error) = self.private_key_bytes() {
            return Err(error);
        }
        if let Err(error) = self.public_key() {
            return Err(error);
        }
        Ok(())
    }
}

/// Decoding the hexadecimal text of a byte string gives the byte string back.
pub proof fn lemma_hex_round_trip(bytes: Seq<u8>)
    ensures
        foreign::is_hex(text::bytes_of(foreign::hex_text(bytes))),
        foreign::hex_bytes(text::bytes_of(foreign::hex_text(bytes))) == bytes,
{
    let chars = foreign::hex_text(bytes);
    assert(vstd::utf8::is_ascii_chars(chars));
    vstd::utf8::is_ascii_chars_encode_utf8(chars);
    let encoded = text::bytes_of(chars);
    assert forall|i: int| 0 <= i < encoded.len() implies foreign::hex_value(
        #[trigger] encoded[i],
    ) is Some by {
        assert(encoded[i] == chars[i] as u8);
    }
    assert forall|i: int| 0 <= i < bytes.len() implies #[trigger] foreign::hex_bytes(encoded)[i]
        == bytes[i] by {
        assert(encoded[2 * i] == chars[2 * i] as u8);
        assert(encoded[2 * i + 1] == chars[2 * i + 1] as u8);
        assert((2 * i) / 2 == i && (2 * i + 1) / 2 == i);
    }
    assert(foreign::hex_bytes(encoded) =~= bytes);
}

/// A device can be given a name exactly if there are 1 to 63 characters between the white
/// space around it and no control character is among them; that part is its name then.
pub proof fn law_devices_get_printable_names(name: Seq<char>, from: int, to: int)
    requires
        0 <= from <= to <= name.len(),
        forall|i: int| 0 <= i < from ==> text::is_white_space(#[trigger] name[i]),
        forall|i: int| to <= i < name.len() ==> text::is_white_space(#[trigger] name[i]),
        from < to ==> !text::is_white_space(name[from]) && !text::is_white_space(name[to - 1]),
    ensures
        name_given(name) is Some <==> 1 <= to - from <= 63 && (forall|i: int|
            from <= i < to ==> !(#[trigger] name[i] <= '\u{1f}' || '\u{7f}' <= name[i] <= '\u{9f}')),
        name_given(name) is Some ==> name_given(name) == Some(name.subrange(from, to)),
{
    text::law_trimming_cuts_white_space(name, from, to);
    let part = name.subrange(from, to);
    if is_device_name(part) {
        assert forall|i: int| from <= i < to implies !(#[trigger] name[i] <= '\u{1f}' || '\u{7f}'
            <= name[i] <= '\u{9f}') by {
            assert(part[i - from] == name[i]);
        }
    }
    if 1 <= to - from <= 63 && (forall|i: int|
        from <= i < to ==> !(#[trigger] name[i] <= '\u{1f}' || '\u{7f}' <= name[i] <= '\u{9f}')) {
        assert forall|i: int| 0 <= i < part.len() implies !text::is_control(#[trigger] part[i]) by {
            assert(part[i] == name[i + from]);
        }
    }
}

/// A new device is called like its host, cut to 63 characters; where the host has no name, it
/// has one of its own.
pub proof fn law_new_devices_are_called_like_their_host(host: Option<Seq<char>>)
    ensures
        1 <= host_name(host).len() <= 63,
        host is Some && 1 <= host->0.len() <= 63 ==> host_name(host) == host->0,
        host is Some && host->0.len() > 63 ==> host_name(host) == host->0.subrange(0, 63),
        host is None || host->0.len() == 0 ==> host_name(host) == "lan-cat"@,
{
    reveal_strlit("lan-cat");
    if host is Some && host->0.len() > 63 {
        assert(host->0.take(63) =~= host->0.subrange(0, 63));
    }
}

/// A configuration is valid exactly if it has the first version and both its keys are the
/// hexadecimal text of 32 bytes; the keys of a new device are.
pub proof fn law_configuration_is_valid(config: Config, key: Seq<u8>)
    ensures
        config.fault() is None <==> config.is_valid(),
        config.is_valid() ==> config.version == 1 && key_bytes(config.private_key@).len() == 32
            && key_bytes(config.public_key@).len() == 32,
        config.version == 1 && is_key_text(config.private_key@) && is_key_text(config.public_key@)
            ==> config.is_valid(),
        key.len() == 32 ==> is_key_text(foreign::hex_text(key)) && key_bytes(foreign::hex_text(key))
            == key,
        config.version != 1 ==> config.fault() == Some(
            ConfigError::UnsupportedVersion(config.version),
        ),
{
    lemma_hex_round_trip(key);
}

} // verus!
