//! What the configuration refers to outside itself: the files it names, and the
//! addresses it spells. Gathered once, before validation, and handed over as
//! plain facts.

use vstd::prelude::*;
use vstd::string::*;
use crate::error::{Fault, MuninnError};
use crate::secret::{secret_in, FileRead, Secret};
use crate::text;

verus! {

/// What is known of one file.
pub struct FileFacts {
    pub path: String,
    pub read: FileRead,
    /// Whether anything stands at the path.
    pub present: bool,
}

/// A socket address.
#[derive(Debug, Clone)]
pub struct ListenAddress {
    /// Whether the IP address is a version 6 one.
    pub v6: bool,
    /// The IP address as a number.
    pub ip: u128,
    pub port: u16,
    /// The address in its canonical spelling.
    pub text: String,
}

impl ListenAddress {
    pub fn port(&self) -> (r: u16)
        ensures
            r == self.port,
    {
        self.port
    }

    /// Whether this is the wildcard address, which stands for every local one.
    pub open spec fn wildcard(self) -> bool {
        self.ip == 0
    }

    pub fn is_unspecified(&self) -> (r: bool)
        ensures
            r == self.wildcard(),
    {
        self.ip == 0
    }

    pub fn copy(&self) -> (r: Self)
        ensures
            r == *self,
    {
        ListenAddress { v6: self.v6, ip: self.ip, port: self.port, text: self.text.clone() }
    }
}

/// What a text denotes as a socket address.
#[derive(Debug)]
pub struct AddressFacts {
    pub written: String,
    pub parsed: Option<ListenAddress>,
}

/// Everything the configuration refers to outside itself.
pub struct Host {
    pub files: Vec<FileFacts>,
    pub addresses: Vec<AddressFacts>,
}

/// The facts about `path`, from `i` on.
pub open spec fn find_file(files: Seq<FileFacts>, path: Seq<char>, i: int) -> Option<FileFacts>
    decreases files.len() - i,
{
    if i < 0 || i >= files.len() {
        None
    } else if files[i].path@ == path {
        Some(files[i])
    } else {
        find_file(files, path, i + 1)
    }
}

/// The facts about an address text, from `i` on.
pub open spec fn find_address(addresses: Seq<AddressFacts>, written: Seq<char>, i: int) -> Option<
    ListenAddress,
>
    decreases addresses.len() - i,
{
    if i < 0 || i >= addresses.len() {
        None
    } else if addresses[i].written@ == written {
        addresses[i].parsed
    } else {
        find_address(addresses, written, i + 1)
    }
}

impl Host {
    /// What reading `path` gives. A file nothing is known of is missing.
    pub open spec fn read(self, path: Seq<char>) -> FileRead {
        match find_file(self.files@, path, 0) {
            Some(f) => f.read,
            None => FileRead::NotFound,
        }
    }

    /// Whether anything stands at `path`.
    pub open spec fn holds(self, path: Seq<char>) -> bool {
        match find_file(self.files@, path, 0) {
            Some(f) => f.present,
            None => false,
        }
    }

    /// The address a text denotes, if it denotes one.
    pub open spec fn address(self, written: Seq<char>) -> Option<ListenAddress> {
        find_address(self.addresses@, written, 0)
    }

    /// The secret in the file at `path`.
    pub open spec fn secret(self, path: Seq<char>) -> Result<Seq<char>, Fault> {
        secret_in(path, self.read(path))
    }

    fn file(&self, path: &str) -> (r: Option<&FileFacts>)
        ensures
            match r {
                Some(f) => find_file(self.files@, path@, 0) == Some(*f),
                None => find_file(self.files@, path@, 0) is None,
            },
    {
        let mut i: usize = 0;
        while i < self.files.len()
            invariant
                i <= self.files.len(),
                find_file(self.files@, path@, 0) == find_file(self.files@, path@, i as int),
            decreases self.files.len() - i,
        {
            if text::same(&self.files[i].path, path) {
                return Some(&self.files[i]);
            }
            i += 1;
        }
        None
    }

    pub fn path_exists(&self, path: &str) -> (r: bool)
        ensures
            r == self.holds(path@),
    {
        match self.file(path) {
            Some(f) => f.present,
            None => false,
        }
    }

    pub fn secret_at(&self, path: &str) -> (r: Result<Secret, MuninnError>)
        ensures
            match r {
                Ok(s) => self.secret(path@) == Ok::<Seq<char>, Fault>(s@),
                Err(e) => self.secret(path@) == Err::<Seq<char>, Fault>(e@),
            },
    {
        match self.file(path) {
            Some(f) => Secret::from_file(path, &f.read),
            None => Secret::from_file(path, &FileRead::NotFound),
        }
    }

    pub fn address_of(&self, written: &str) -> (r: Option<&ListenAddress>)
        ensures
            match r {
                Some(a) => self.address(written@) == Some(*a),
                None => self.address(written@) is None,
            },
    {
        let mut i: usize = 0;
        while i < self.addresses.len()
            invariant
                i <= self.addresses.len(),
                find_address(self.addresses@, written@, 0) == find_address(
                    self.addresses@,
                    written@,
                    i as int,
                ),
            decreases self.addresses.len() - i,
        {
            if text::same(&self.addresses[i].written, written) {
                return self.addresses[i].parsed.as_ref();
            }
            i += 1;
        }
        None
    }
}

} // verus!
