//! The curl client that the proxy uses to learn its public address.
use vstd::prelude::*;
use crate::text::{trim, trim_string};

verus! {

/// The curl binary at `bin_path`.
pub struct CurlClient {
    bin_path: String,
}

impl CurlClient {
    /// The binary's path.
    pub closed spec fn path_view(&self) -> Seq<char> {
        self.bin_path@
    }

    /// The client for the binary that a path lookup (`which curl`) answered
    /// with: the answer without surrounding whitespace.
    pub fn new_with_path_discovery(which_answer: &str) -> (r: Self)
        ensures
            r.path_view() == trim(which_answer@),
    {
        CurlClient::new(trim_string(which_answer))
    }

    /// The client for the binary at `bin_path`.
    pub fn new(bin_path: String) -> (r: Self)
        ensures
            r.path_view() == bin_path@,
    {
        CurlClient { bin_path }
    }

    /// The binary's path.
    pub fn bin_path(&self) -> (r: &String)
        ensures
            r@ == self.path_view(),
    {
        &self.bin_path
    }

    /// The command line that fetches `url`.
    pub fn get_command(&self, url: &str) -> (argv: Vec<String>)
        ensures
            crate::text::string_views(argv@) == seq![self.path_view(), url@],
    {
        let mut argv: Vec<String> = Vec::new();
        argv.push(self.bin_path.clone());
        argv.push(crate::text::owned(url));
        assert(crate::text::string_views(argv@) =~= seq![self.path_view(), url@]);
        argv
    }
}

} // verus!
