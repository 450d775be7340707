//! The machine on which data is collected.
use vstd::prelude::*;

verus! {

/// The machine, its user and the directory that is documented.
#[derive(Debug, Clone)]
pub struct HostInfo {
    pub hostname: String,
    pub username: String,
    pub realname: String,
    pub os: String,
    pub kernel: String,
    pub cwd: String,
}

/// The machine, its user and the directory that is documented, as texts.
#[verifier::ext_equal]
pub struct HostModel {
    pub hostname: Seq<char>,
    pub username: Seq<char>,
    pub realname: Seq<char>,
    pub os: Seq<char>,
    pub kernel: Seq<char>,
    pub cwd: Seq<char>,
}

impl View for HostInfo {
    type V = HostModel;

    open spec fn view(&self) -> HostModel {
        HostModel {
            hostname: self.hostname@,
            username: self.username@,
            realname: self.realname@,
            os: self.os@,
            kernel: self.kernel@,
            cwd: self.cwd@,
        }
    }
}

/// What is known, or `otherwise`.
pub open spec fn known_or(value: Option<String>, otherwise: Seq<char>) -> Seq<char> {
    match value {
        Some(v) => v@,
        None => otherwise,
    }
}

/// What is said of the machine: a host name that is not known is left empty, an
/// operating system or kernel that is not known is called `unknown`.
pub fn collect_host_info(
    hostname: Option<String>,
    username: String,
    realname: String,
    os: Option<String>,
    kernel: Option<String>,
    cwd: String,
) -> (r: HostInfo)
    ensures
        r@ == (HostModel {
            hostname: known_or(hostname, Seq::empty()),
            username: username@,
            realname: realname@,
            os: known_or(os, "unknown"@),
            kernel: known_or(kernel, "unknown"@),
            cwd: cwd@,
        }),
        hostname matches Some(name) ==> r.hostname == name,
        hostname is None ==> r.hostname@.len() == 0,
        r.username == username,
        r.realname == realname,
        os matches Some(name) ==> r.os == name,
        os is None ==> r.os@ == "unknown"@,
        kernel matches Some(version) ==> r.kernel == version,
        kernel is None ==> r.kernel@ == "unknown"@,
        r.cwd == cwd,
{
    HostInfo {
        hostname: match hostname {
            Some(name) => name,
            None => String::new(),
        },
        username,
        realname,
        os: match os {
            Some(name) => name,
            None => "unknown".to_owned(),
        },
        kernel: match kernel {
            Some(version) => version,
            None => "unknown".to_owned(),
        },
        cwd,
    }
}

/// The texts of what is said of the machine are what its strings hold, each at its own
/// place.
pub proof fn law_host_texts(host: HostInfo)
    ensures
        host@.hostname == host.hostname@,
        host@.username == host.username@,
        host@.realname == host.realname@,
        host@.os == host.os@,
        host@.kernel == host.kernel@,
        host@.cwd == host.cwd@,
{
}

} // verus!
