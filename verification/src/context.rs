//! Process-wide plexus context: the configuration hash, written once at
//! boot and read thereafter. Reads before initialization observe the empty
//! sentinel.

use vstd::prelude::*;
use vstd::string::*;

verus! {

/// Holder of the once-initialized plexus hash.
#[derive(Debug)]
pub struct PlexusContext {
    hash: Option<String>,
}

impl View for PlexusContext {
    type V = Option<Seq<char>>;

    closed spec fn view(&self) -> Option<Seq<char>> {
        match self.hash {
            Some(ref h) => Some(h@),
            None => None,
        }
    }
}

impl PlexusContext {
    /// An uninitialized context.
    pub fn new() -> (r: Self)
        ensures
            r@ is None,
    {
        PlexusContext { hash: None }
    }

    /// Publishes the hash; only the first call takes effect, later calls
    /// are ignored.
    pub fn init(&mut self, hash: String)
        ensures
            old(self)@ is None ==> final(self)@ == Some(hash@),
            old(self)@ is Some ==> final(self)@ == old(self)@,
    {
        if self.hash.is_none() {
            self.hash = Some(hash);
        }
    }

    /// The published hash, or the empty string before initialization.
    pub fn hash(&self) -> (r: String)
        ensures
            match self@ {
                Some(h) => r@ == h,
                None => r@ == Seq::<char>::empty(),
            },
    {
        match &self.hash {
            Some(h) => h.clone(),
            None => {
                let r = String::new();
                proof {
                    assert(r@ =~= Seq::<char>::empty());
                }
                r
            },
        }
    }
}

} // verus!
