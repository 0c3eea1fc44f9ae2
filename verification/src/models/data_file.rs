//! The flat record of one catalog document.

use vstd::prelude::*;

verus! {

use crate::logiqx;
use crate::strutil::{clone_opt_bytes, clone_opt_string};

/// A catalog document's identity and descriptive attributes, flattened out
/// of the header.
pub struct New {
    pub build: Option<String>,
    pub debug: Option<String>,
    pub file_name: Option<String>,
    pub name: String,
    pub description: Option<String>,
    pub version: Option<String>,
    pub author: Option<String>,
    pub homepage: Option<String>,
    pub url: Option<String>,
    pub sha1: Option<Vec<u8>>,
}

impl New {
    /// Flattens a catalog's identity fields into one record.
    pub fn from_logiqx(l_data_file: &logiqx::DataFile) -> (r: New)
        ensures
            r.build == l_data_file.build,
            r.debug == l_data_file.debug,
            r.file_name == l_data_file.file_name,
            r.name@ == l_data_file.header.name@,
            r.description == l_data_file.header.description,
            r.version == l_data_file.header.version,
            r.author == l_data_file.header.author,
            r.homepage == l_data_file.header.homepage,
            r.url == l_data_file.header.url,
            (match r.sha1 {
                Some(d) => l_data_file.sha1 is Some && d@ == l_data_file.sha1->Some_0@,
                None => l_data_file.sha1 is None,
            }),
    {
        New {
            build: clone_opt_string(&l_data_file.build),
            debug: clone_opt_string(&l_data_file.debug),
            file_name: clone_opt_string(&l_data_file.file_name),
            name: l_data_file.header.name.clone(),
            description: clone_opt_string(&l_data_file.header.description),
            version: clone_opt_string(&l_data_file.header.version),
            author: clone_opt_string(&l_data_file.header.author),
            homepage: clone_opt_string(&l_data_file.header.homepage),
            url: clone_opt_string(&l_data_file.header.url),
            sha1: clone_opt_bytes(&l_data_file.sha1),
        }
    }

    /// The record's document digest, if known.
    pub fn sha1(&self) -> (r: Option<&Vec<u8>>)
        ensures
            match r {
                Some(d) => self.sha1 == Some(*d),
                None => self.sha1 is None,
            },
    {
        self.sha1.as_ref()
    }

    /// The record's declared catalog name.
    pub fn name(&self) -> (r: &str)
        ensures
            r@ == self.name@,
    {
        self.name.as_str()
    }
}

} // verus!
