//! Which hashes a run computes.
use vstd::prelude::*;

verus! {

/// The options of a run, as given on the command line.
#[derive(Debug, Clone, Copy, PartialEq, Eq, Structural)]
pub struct Args {
    /// Do not compute MD5 hashes.
    pub no_md5: bool,
    /// Do not compute SHA-256 hashes.
    pub no_sha256: bool,
    /// Do not compute SHA-512 hashes.
    pub no_sha512: bool,
}

/// The hashes that a run computes of each file.
#[derive(Debug, Clone, Copy, PartialEq, Eq, Structural)]
pub struct HashConfig {
    pub md5: bool,
    pub sha256: bool,
    pub sha512: bool,
}

/// Why options cannot be used.
#[derive(Debug, Clone, Copy, PartialEq, Eq, Structural)]
pub enum ConfigError {
    /// Every hash was switched off.
    NoAlgorithm,
}

impl ConfigError {
    /// What the error says to the operator.
    pub open spec fn message_text(self) -> Seq<char> {
        match self {
            ConfigError::NoAlgorithm => "At least one hash algorithm must be enabled."@,
        }
    }

    /// What the error says to the operator.
    pub fn message(&self) -> (r: &'static str)
        ensures
            r@ == self.message_text(),
    {
        match self {
            ConfigError::NoAlgorithm => "At least one hash algorithm must be enabled.",
        }
    }
}

impl HashConfig {
    /// Whether at least one hash is computed.
    pub open spec fn computes_any(self) -> bool {
        self.md5 || self.sha256 || self.sha512
    }

    /// The configuration that the options ask for: each hash is computed unless
    /// it was switched off, and switching all of them off is refused.
    pub fn from_args(args: &Args) -> (r: Result<HashConfig, ConfigError>)
        ensures
            r is Err <==> args.no_md5 && args.no_sha256 && args.no_sha512,
            r matches Err(e) ==> e == ConfigError::NoAlgorithm,
            r matches Ok(cfg) ==> {
                &&& cfg == (HashConfig {
                    md5: !args.no_md5,
                    sha256: !args.no_sha256,
                    sha512: !args.no_sha512,
                })
                &&& cfg.computes_any()
            },
    {
        let cfg = HashConfig {
            md5: !args.no_md5,
            sha256: !args.no_sha256,
            sha512: !args.no_sha512,
        };
        if !cfg.md5 && !cfg.sha256 && !cfg.sha512 {
            return Err(ConfigError::NoAlgorithm);
        }
        Ok(cfg)
    }
}

} // verus!
