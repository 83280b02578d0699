//! The options of a run and what they select.

use vstd::prelude::*;

verus! {

/// Where the URLs of a run come from.
#[derive(Clone, Debug, PartialEq, Eq)]
pub enum Source {
    /// The URLs given as arguments, in their order.
    Literal { urls: Vec<String> },
    /// The lines of the file at `path`.
    File { path: String },
    /// The lines of standard input.
    Interactive,
}

/// The one source that is read: the literal URLs if there are any, else the
/// file if one is named, else standard input.
pub open spec fn chosen_source(urls: Vec<String>, urls_file: Option<String>) -> Source {
    if urls@.len() > 0 {
        Source::Literal { urls }
    } else {
        match urls_file {
            Some(path) => Source::File { path },
            None => Source::Interactive,
        }
    }
}

/// Picks the source of URLs. Literal URLs are used alone whenever there are
/// any, whether or not a file is named too.
pub fn select_source(urls: Vec<String>, urls_file: Option<String>) -> (source: Source)
    ensures
        source == chosen_source(urls, urls_file),
        urls@.len() > 0 ==> source == (Source::Literal { urls }),
{
    if urls.len() > 0 {
        Source::Literal { urls }
    } else {
        match urls_file {
            Some(path) => Source::File { path },
            None => Source::Interactive,
        }
    }
}

/// The options of a run.
#[derive(Clone, Debug, PartialEq, Eq)]
pub struct Config {
    /// Where the store is written. Without it the store is printed at the
    /// end and no checkpoint is made.
    pub out: Option<String>,
    /// Whether the run starts from the store found at `out`.
    pub merge: bool,
    /// A file of URLs, one per line; read only if `urls` is empty.
    pub urls_file: Option<String>,
    /// Literal URLs.
    pub urls: Vec<String>,
}

impl Config {
    /// Merging needs an output path to merge with.
    pub open spec fn valid(&self) -> bool {
        self.merge ==> self.out is Some
    }

    pub fn is_valid(&self) -> (b: bool)
        ensures
            b == self.valid(),
    {
        !self.merge || self.out.is_some()
    }

    /// Whether the store is written to a file, at checkpoints and at the
    /// end.
    pub fn checkpointing(&self) -> (b: bool)
        ensures
            b == (self.out is Some),
    {
        self.out.is_some()
    }

    /// The snapshot that the run starts from: the one at `out` when merging,
    /// none otherwise, whether or not a file exists at `out`.
    pub fn merge_target(&self) -> (path: Option<&String>)
        requires
            self.valid(),
        ensures
            path == if self.merge {
                Some(&self.out->0)
            } else {
                None
            },
    {
        if self.merge {
            self.out.as_ref()
        } else {
            None
        }
    }

    /// The source of URLs that these options select.
    pub fn into_source(self) -> (source: Source)
        ensures
            source == chosen_source(self.urls, self.urls_file),
    {
        select_source(self.urls, self.urls_file)
    }
}

} // verus!
