use vstd::prelude::*;
use vstd::string::*;

verus! {

/// The signing secret that is used when none is configured.
pub open spec fn default_secret() -> Seq<char> {
    "your_jwt_secret"@
}

/// What the service is configured with: built once at startup, then only
/// read.
#[derive(Debug)]
pub struct Config {
    /// The secret that session tokens are signed with.
    pub jwt_secret: String,
}

impl Config {
    /// The bytes that tokens are signed with.
    pub open spec fn secret(&self) -> Seq<u8> {
        vstd::utf8::encode_utf8(self.jwt_secret@)
    }

    /// The configuration for a signing secret that was read at startup. With
    /// none the fixed default is taken: tokens are then signed with a secret
    /// that anyone can know.
    pub fn new(jwt_secret: Option<String>) -> (config: Config)
        ensures
            config.jwt_secret@ == match jwt_secret {
                Some(s) => s@,
                None => default_secret(),
            },
    {
        match jwt_secret {
            Some(s) => Config { jwt_secret: s },
            None => Config { jwt_secret: "your_jwt_secret".to_owned() },
        }
    }

    /// The bytes that tokens are signed with.
    pub fn secret_bytes(&self) -> (bytes: &[u8])
        ensures
            bytes@ == self.secret(),
    {
        self.jwt_secret.as_str().as_bytes()
    }
}

} // verus!
