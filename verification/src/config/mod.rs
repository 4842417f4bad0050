//! The settings of the server.

use crate::util::identity::{is_token, random_token};
use vstd::prelude::*;
use vstd::utf8::encode_utf8;

verus! {

/// The number of characters of a private key that the server makes up.
pub const PRIVATE_KEY_LENGTH: usize = 32;

/// The settings of the server, as they are read from the environment.
pub struct Config {
    pub address: String,
    pub db_url: String,
    pub private_key: String,
    pub https: bool,
    pub static_dir: String,
}

impl Config {
    /// Whether settings with a private key of `length` bytes count as
    /// lacking one. The bits of the length are inverted before it is
    /// tested for more than nothing, so only a key of `usize::MAX` bytes
    /// would count as present.
    pub open spec fn lacks_key(length: usize) -> bool {
        !length > 0
    }

    /// Every key counts as lacking but one whose length has all bits set,
    /// the largest number there is.
    pub proof fn lemma_lacks_key(length: usize)
        ensures
            Self::lacks_key(length) <==> length != !0usize,
    {
        assert(!length > 0 <==> length != !0usize) by (bit_vector);
    }

    /// Tells whether the settings count as lacking a private key.
    pub fn needs_key(&self) -> (needed: bool)
        ensures
            needed == Self::lacks_key(encode_utf8(self.private_key@).len() as usize),
    {
        !self.private_key.as_str().len() > 0
    }

    /// The settings with `key` as their private key.
    pub fn with_key(self, key: String) -> (config: Config)
        ensures
            config == (Config { private_key: key, ..self }),
    {
        Config { private_key: key, ..self }
    }

    /// Completes the settings that were read: where the private key counts
    /// as lacking, a key of 32 random letters and digits takes its place.
    /// Nothing else changes.
    pub fn create(loaded: Config) -> (config: Config)
        ensures
            config.address == loaded.address,
            config.db_url == loaded.db_url,
            config.https == loaded.https,
            config.static_dir == loaded.static_dir,
            Self::lacks_key(encode_utf8(loaded.private_key@).len() as usize) ==> is_token(
                config.private_key@,
                PRIVATE_KEY_LENGTH as nat,
            ),
            !Self::lacks_key(encode_utf8(loaded.private_key@).len() as usize)
                ==> config.private_key == loaded.private_key,
    {
        if loaded.needs_key() {
            loaded.with_key(random_token(PRIVATE_KEY_LENGTH))
        } else {
            loaded
        }
    }
}

} // verus!
